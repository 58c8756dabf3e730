# teal_typegen

Reads Teal type definitions (types, functions, records) from a Teal syntax tree, and
writes the `mlua::FromLua` / `mlua::IntoLua` impls that the `LuaConvert` derive
generates for Rust structs and enums. The library in `src/` is verified with Verus:

- `syntax`: the syntax tree model and child lookup;
- `types`: Teal types, functions, enums and records, with their models;
- `type_map`: a name-to-type map that keeps each name once;
- `teal`: reading types and records from syntax nodes, with the laws of unions and fields;
- `text`: joining and wrapping text;
- `lua_derive`: the derive's accepted inputs and generated impls.

`app/` parses Teal source with tree-sitter and prints the records it declares, and
adapts the derive to Rust tokens with syn.
