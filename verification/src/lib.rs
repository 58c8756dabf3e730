//! Teal type definitions read from a syntax tree, and the Lua conversion code
//! that the `LuaConvert` derive generates for Rust types.

pub mod lua_derive;
pub mod syntax;
pub mod teal;
pub mod text;
pub mod type_map;
pub mod types;
