use teal_typegen::lua_derive::{
    derive_lua_convert, impl_from_lua, impl_into_lua, rejection, type_generics, where_clause,
    DeriveData, DeriveInput, FieldDef, VariantDef,
};

fn named_field(name: &str, ty: &str) -> FieldDef {
    FieldDef { ident: Some(name.to_string()), ty: ty.to_string() }
}

fn strings(xs: &[&str]) -> Vec<String> {
    xs.iter().map(|s| s.to_string()).collect()
}

fn point() -> DeriveInput {
    DeriveInput {
        ident: "Point".to_string(),
        lifetimes: vec![],
        type_params: vec![],
        data: DeriveData::Struct(vec![named_field("x", "f64"), named_field("y", "f64")]),
    }
}

fn value() -> DeriveInput {
    DeriveInput {
        ident: "Value".to_string(),
        lifetimes: vec![],
        type_params: vec![],
        data: DeriveData::Enum(vec![
            VariantDef { ident: "Num".to_string(), fields: vec![FieldDef { ident: None, ty: "f64".to_string() }] },
            VariantDef { ident: "Text".to_string(), fields: vec![FieldDef { ident: None, ty: "String".to_string() }] },
        ]),
    }
}

const NOT_A_TABLE: &str = "        } else {\n            Err(::mlua::Error::FromLuaConversionError {\n                from: lua_value.type_name(),\n                to: stringify!(Point),\n                message: Some(format!(\"{} is not a table\", lua_value.type_name())),\n            })\n        }\n    }\n}\n";

#[test]
fn struct_from_lua_reads_each_field() {
    let expected = String::new()
        + "impl<'lua> ::mlua::FromLua<'lua> for Point  where\n     {\n"
        + "    fn from_lua(lua_value: ::mlua::Value<'lua>, _: &'lua ::mlua::Lua) -> ::mlua::Result<Self> {\n"
        + "        if let ::mlua::Value::Table(t) = lua_value {\n            Ok(Self {\n"
        + "                x: t.get(stringify!(x))?,\n                y: t.get(stringify!(y))?"
        + "\n            })\n"
        + NOT_A_TABLE;
    assert_eq!(impl_from_lua(&point()), expected);
}

#[test]
fn struct_into_lua_writes_each_field() {
    let expected = String::new()
        + "impl<'lua> ::mlua::IntoLua<'lua> for Point  where\n     {\n"
        + "    fn into_lua(self, lua: &'lua ::mlua::Lua) -> ::mlua::Result<::mlua::Value<'lua>> {\n"
        + "        let t = lua.create_table()?;\n"
        + "        t.set(stringify!(x), self.x)?;;\n        t.set(stringify!(y), self.y)?;"
        + "\n        Ok(::mlua::Value::Table(t))\n    }\n}\n";
    assert_eq!(impl_into_lua(&point()), expected);
}

#[test]
fn derive_is_from_then_into() {
    let input = point();
    assert_eq!(derive_lua_convert(&input), impl_from_lua(&input) + &impl_into_lua(&input));
    let input = value();
    assert_eq!(derive_lua_convert(&input), impl_from_lua(&input) + &impl_into_lua(&input));
}

#[test]
fn generated_impls_are_well_formed_tokens() {
    for input in [point(), value()] {
        let text = derive_lua_convert(&input);
        let tokens: proc_macro2::TokenStream = text.parse().expect("generated code lexes");
        let impls = tokens
            .into_iter()
            .filter(|t| matches!(t, proc_macro2::TokenTree::Ident(i) if i == "impl"))
            .count();
        assert_eq!(impls, 2);
    }
}

#[test]
fn generics_and_lifetimes() {
    assert_eq!(type_generics(&vec![], &vec![]), "");
    assert_eq!(type_generics(&strings(&["'a"]), &vec![]), "<'lua, >");
    assert_eq!(type_generics(&strings(&["'a"]), &strings(&["T", "U"])), "<'lua, T, U>");
    assert_eq!(type_generics(&vec![], &strings(&["T"])), "<T>");
    assert_eq!(where_clause(&vec![]), "where\n    ");
    assert_eq!(
        where_clause(&strings(&["T", "U"])),
        "where\n    T: ::mlua::FromLua<'lua>, U: ::mlua::FromLua<'lua>"
    );
    let input = DeriveInput {
        ident: "Wrap".to_string(),
        lifetimes: strings(&["'a"]),
        type_params: strings(&["T"]),
        data: DeriveData::Struct(vec![named_field("v", "T")]),
    };
    let text = impl_from_lua(&input);
    assert!(text.starts_with(
        "impl<'lua, T> ::mlua::FromLua<'lua> for Wrap <'lua, T> where\n    T: ::mlua::FromLua<'lua> {\n"
    ));
}

#[test]
fn union_enum_tries_variants_in_order() {
    let expected = String::new()
        + "impl<'lua> ::mlua::FromLua<'lua> for Value  where\n     {\n"
        + "    fn from_lua(lua_value: ::mlua::Value<'lua>, lua: &'lua ::mlua::Lua) -> ::mlua::Result<Self> {\n"
        + "        match <f64 as ::mlua::FromLua>::from_lua(lua_value.clone(), lua) {\n            Ok(v) => {\n                return Ok(Self::Num (v))\n            }\n            Err(_) => (),\n        }"
        + ";\n"
        + "        match <String as ::mlua::FromLua>::from_lua(lua_value.clone(), lua) {\n            Ok(v) => {\n                return Ok(Self::Text (v))\n            }\n            Err(_) => (),\n        }"
        + "\n        Err(::mlua::Error::FromLuaConversionError {\n            from: lua_value.type_name(),\n            to: stringify!(Value),\n            message: Some(format!(\"{} is not a of a valid type\", lua_value.type_name())),\n        })\n    }\n}\n";
    assert_eq!(impl_from_lua(&value()), expected);
    let into = String::new()
        + "impl<'lua> ::mlua::IntoLua<'lua> for Value  where\n     {\n"
        + "    fn into_lua(self, lua: &'lua ::mlua::Lua) -> ::mlua::Result<::mlua::Value<'lua>> {\n        match self {\n"
        + "            Self::Num(v) => ::mlua::IntoLua::into_lua(v, lua),\n            Self::Text(v) => ::mlua::IntoLua::into_lua(v, lua)"
        + "\n        }\n    }\n}\n";
    assert_eq!(impl_into_lua(&value()), into);
}

#[test]
fn array_record_reads_the_sequence() {
    let input = DeriveInput {
        ident: "List".to_string(),
        lifetimes: vec![],
        type_params: vec![],
        data: DeriveData::Struct(vec![named_field("__arr", "Vec<i64>"), named_field("name", "String")]),
    };
    let from = impl_from_lua(&input);
    assert!(from.contains("            let mut s = Self {\n                __arr: Vec::new(),\n                __arr: t.get(stringify!(__arr))?\n            };\n"));
    assert!(from.contains("s.__arr = t.sequence_values().collect::<Result<Vec<_>>>()?;"));
    assert!(!from.contains("stringify!(name)"));
    let into = impl_into_lua(&input);
    assert!(into.starts_with("impl<'lua> ::mlua::intolua<'lua> for List  where\n     {\n"));
    assert!(into.contains("        for v in self.__arr {\n            t.push(v);\n        }\n        t.set(stringify!(__arr), self.__arr)?;\n        ok(::mlua::value::table(t))"));
}

#[test]
fn rejected_items() {
    assert!(rejection(&point()).is_none());
    assert!(rejection(&value()).is_none());
    let union = DeriveInput { ident: "U".to_string(), lifetimes: vec![], type_params: vec![], data: DeriveData::Union };
    assert_eq!(rejection(&union).unwrap(), "Unions are not supported");
    let tuple = DeriveInput {
        ident: "T".to_string(),
        lifetimes: vec![],
        type_params: vec![],
        data: DeriveData::Struct(vec![FieldDef { ident: None, ty: "i64".to_string() }]),
    };
    assert_eq!(rejection(&tuple).unwrap(), "not yet implemented: Only named structs are implemented");
    let unit_enum = DeriveInput {
        ident: "E".to_string(),
        lifetimes: vec![],
        type_params: vec![],
        data: DeriveData::Enum(vec![VariantDef { ident: "A".to_string(), fields: vec![] }]),
    };
    assert_eq!(
        rejection(&unit_enum).unwrap(),
        "Arbitrary Rust enums cannot be automatically contructed from a Lua union or enum"
    );
}

#[test]
fn empty_enum_and_unit_struct() {
    let empty = DeriveInput { ident: "E".to_string(), lifetimes: vec![], type_params: vec![], data: DeriveData::Enum(vec![]) };
    assert!(rejection(&empty).is_none());
    assert!(impl_from_lua(&empty).contains("fn from_lua(lua_value: ::mlua::Value<'lua>, lua: &'lua ::mlua::Lua) -> ::mlua::Result<Self> {\n\n        Err("));
    let unit = DeriveInput { ident: "S".to_string(), lifetimes: vec![], type_params: vec![], data: DeriveData::Struct(vec![]) };
    assert!(impl_from_lua(&unit).contains("            Ok(Self {\n\n            })\n"));
}
