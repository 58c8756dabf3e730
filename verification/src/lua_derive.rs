//! The `LuaConvert` derive: for a Rust struct or enum, the text of the
//! `mlua::FromLua` and `mlua::IntoLua` impls that convert it from and to Lua values.
//!
//! A named struct converts from and to a Lua table, field by field; a struct with
//! an `__arr` field converts its array part too; an enum whose variants each hold
//! one value converts as a union, trying the variants in order.

use vstd::prelude::*;

use crate::syntax::text_is;
use crate::text::{join, join_texts, wrap_each, wrap_each_twice, wrap_texts, wrap_texts_twice};
use crate::types::strings_view;

verus! {

/// A field of a struct or of an enum variant, as the derive reads it.
#[derive(Debug)]
pub struct FieldDef {
    /// The field's name; tuple fields have none.
    pub ident: Option<String>,
    /// The source text of the field's type.
    pub ty: String,
}

/// A variant of an enum, as the derive reads it.
#[derive(Debug)]
pub struct VariantDef {
    pub ident: String,
    pub fields: Vec<FieldDef>,
}

/// The body of the item that the derive is applied to.
#[derive(Debug)]
pub enum DeriveData {
    Struct(Vec<FieldDef>),
    Enum(Vec<VariantDef>),
    Union,
}

/// The item that the derive is applied to.
#[derive(Debug)]
pub struct DeriveInput {
    /// The item's name.
    pub ident: String,
    /// The source text of each lifetime parameter.
    pub lifetimes: Vec<String>,
    /// The source text of each type parameter, bounds included.
    pub type_params: Vec<String>,
    pub data: DeriveData,
}

// ---------------------------------------------------------------------------
// What the derive accepts

/// Whether every field has a name.
pub open spec fn all_named(fs: Seq<FieldDef>) -> bool {
    forall|i: int| 0 <= i < fs.len() ==> (#[trigger] fs[i]).ident is Some
}

/// Whether every variant holds exactly one value.
pub open spec fn all_single_valued(vs: Seq<VariantDef>) -> bool {
    forall|i: int| 0 <= i < vs.len() ==> (#[trigger] vs[i]).fields.len() == 1
}

/// Why the derive refuses `input`, as the text it fails with; none when it accepts it.
pub open spec fn rejection_text(input: DeriveInput) -> Option<Seq<char>> {
    match input.data {
        DeriveData::Union => Some("Unions are not supported"@),
        DeriveData::Struct(fs) => if all_named(fs@) {
            None
        } else {
            Some("not yet implemented: Only named structs are implemented"@)
        },
        DeriveData::Enum(vs) => if all_single_valued(vs@) {
            None
        } else {
            Some(
                "Arbitrary Rust enums cannot be automatically contructed from a Lua union or enum"@,
            )
        },
    }
}

/// Whether the derive accepts `input`.
pub open spec fn derivable(input: DeriveInput) -> bool {
    rejection_text(input) is None
}

/// Why the derive refuses `input`, as the text it fails with; none when it accepts it.
#[verifier::loop_isolation(false)]
pub fn rejection(input: &DeriveInput) -> (res: Option<String>)
    ensures
        match res {
            Some(m) => rejection_text(*input) == Some(m@),
            None => rejection_text(*input) is None,
        },
{
    match &input.data {
        DeriveData::Union => Some("Unions are not supported".to_owned()),
        DeriveData::Struct(fs) => {
            let mut i: usize = 0;
            while i < fs.len()
                invariant
                    i <= fs.len(),
                    forall|j: int| 0 <= j < i ==> (#[trigger] fs@[j]).ident is Some,
                decreases fs.len() - i,
            {
                if fs[i].ident.is_none() {
                    assert(!all_named(fs@)) by {
                        assert(!(fs@[i as int].ident is Some));
                    }
                    return Some("not yet implemented: Only named structs are implemented".to_owned());
                }
                i = i + 1;
            }
            None
        },
        DeriveData::Enum(vs) => {
            let mut i: usize = 0;
            while i < vs.len()
                invariant
                    i <= vs.len(),
                    forall|j: int| 0 <= j < i ==> (#[trigger] vs@[j]).fields.len() == 1,
                decreases vs.len() - i,
            {
                if vs[i].fields.len() != 1 {
                    assert(!all_single_valued(vs@)) by {
                        assert(vs@[i as int].fields.len() != 1);
                    }
                    return Some(
                        "Arbitrary Rust enums cannot be automatically contructed from a Lua union or enum".to_owned(),
                    );
                }
                i = i + 1;
            }
            None
        },
    }
}

// ---------------------------------------------------------------------------
// Pieces of the generated text

/// The names of named fields.
pub open spec fn field_names(fs: Seq<FieldDef>) -> Seq<Seq<char>> {
    fs.map_values(
        |f: FieldDef|
            match f.ident {
                Some(i) => i@,
                None => Seq::empty(),
            },
    )
}

/// The names of the variants.
pub open spec fn variant_names(vs: Seq<VariantDef>) -> Seq<Seq<char>> {
    vs.map_values(|v: VariantDef| v.ident@)
}

/// The type of the first value of each variant.
pub open spec fn variant_types(vs: Seq<VariantDef>) -> Seq<Seq<char>> {
    vs.map_values(|v: VariantDef| v.fields@[0].ty@)
}

/// The names among `names` that are `__arr`.
pub open spec fn array_fields(names: Seq<Seq<char>>) -> Seq<Seq<char>>
    decreases names.len(),
{
    if names.len() == 0 {
        Seq::empty()
    } else if names.last() == "__arr"@ {
        array_fields(names.drop_last()).push(names.last())
    } else {
        array_fields(names.drop_last())
    }
}

/// The generics that follow the type's name in an impl header.
pub open spec fn type_generics_text(lifetimes: Seq<Seq<char>>, generics: Seq<Seq<char>>) -> Seq<
    char,
> {
    if generics.len() > 0 || lifetimes.len() > 0 {
        "<"@ + (if lifetimes.len() > 0 {
            "'lua, "@
        } else {
            Seq::empty()
        }) + join(generics, ", "@) + ">"@
    } else {
        Seq::empty()
    }
}

/// The `where` clause that bounds each type parameter by `FromLua`.
pub open spec fn where_clause_text(generics: Seq<Seq<char>>) -> Seq<char> {
    "where\n    "@ + join(wrap_each(generics, ""@, ": ::mlua::FromLua<'lua>"@), ", "@)
}

/// The header of an impl of `trait_path` for the type.
pub open spec fn impl_header_text(
    trait_path: Seq<char>,
    name: Seq<char>,
    generics: Seq<Seq<char>>,
    type_generics: Seq<char>,
    where_clause: Seq<char>,
) -> Seq<char> {
    "impl<'lua"@ + join(wrap_each(generics, ", "@, ""@), ""@) + "> "@
        + trait_path + " for "@ + name + " "@ + type_generics + " "@ + where_clause + " {\n"@
}

/// The failure that a conversion from a Lua value other than a table reports.
pub open spec fn not_a_table_text(name: Seq<char>) -> Seq<char> {
    "        } else {\n            Err(::mlua::Error::FromLuaConversionError {\n                from: lua_value.type_name(),\n                to: stringify!("@
        + name
        + "),\n                message: Some(format!(\"{} is not a table\", lua_value.type_name())),\n            })\n        }\n    }\n}\n"@
}

/// Reading each field from the table.
pub open spec fn field_reads_text(names: Seq<Seq<char>>) -> Seq<char> {
    join(
        wrap_each_twice(names, "                "@, ": t.get(stringify!("@, "))?"@),
        ",\n"@,
    )
}

/// Writing each field into the table.
pub open spec fn field_writes_text(names: Seq<Seq<char>>) -> Seq<char> {
    join(
        wrap_each_twice(names, "        t.set(stringify!("@, "), self."@, ")?;"@),
        ";\n"@,
    )
}

// ---------------------------------------------------------------------------
// The generated impls

/// `FromLua` for a named struct: read each field from a table.
pub open spec fn record_from_lua_text(
    name: Seq<char>,
    generics: Seq<Seq<char>>,
    type_generics: Seq<char>,
    where_clause: Seq<char>,
    names: Seq<Seq<char>>,
) -> Seq<char> {
    impl_header_text("::mlua::FromLua<'lua>"@, name, generics, type_generics, where_clause)
        + "    fn from_lua(lua_value: ::mlua::Value<'lua>, _: &'lua ::mlua::Lua) -> ::mlua::Result<Self> {\n        if let ::mlua::Value::Table(t) = lua_value {\n            Ok(Self {\n"@
        + field_reads_text(names) + "\n            })\n"@ + not_a_table_text(name)
}

/// `IntoLua` for a named struct: write each field into a new table.
pub open spec fn record_into_lua_text(
    name: Seq<char>,
    generics: Seq<Seq<char>>,
    type_generics: Seq<char>,
    where_clause: Seq<char>,
    names: Seq<Seq<char>>,
) -> Seq<char> {
    impl_header_text("::mlua::IntoLua<'lua>"@, name, generics, type_generics, where_clause)
        + "    fn into_lua(self, lua: &'lua ::mlua::Lua) -> ::mlua::Result<::mlua::Value<'lua>> {\n        let t = lua.create_table()?;\n"@
        + field_writes_text(names) + "\n        Ok(::mlua::Value::Table(t))\n    }\n}\n"@
}

/// `FromLua` for a struct with an array part: read the given fields, then the sequence.
pub open spec fn array_record_from_lua_text(
    name: Seq<char>,
    generics: Seq<Seq<char>>,
    type_generics: Seq<char>,
    where_clause: Seq<char>,
    names: Seq<Seq<char>>,
) -> Seq<char> {
    impl_header_text("::mlua::FromLua<'lua>"@, name, generics, type_generics, where_clause)
        + "    fn from_lua(lua_value: ::mlua::Value<'lua>, _: &'lua ::mlua::Lua) -> ::mlua::Result<Self> {\n        if let ::mlua::Value::Table(t) = lua_value {\n            let mut s = Self {\n                __arr: Vec::new(),\n"@
        + field_reads_text(names)
        + "\n            };\n            s.__arr = t.sequence_values().collect::<Result<Vec<_>>>()?;\n            Ok(s)\n"@
        + not_a_table_text(name)
}

/// `IntoLua` for a struct with an array part: push the sequence, then write the given fields.
pub open spec fn array_record_into_lua_text(
    name: Seq<char>,
    generics: Seq<Seq<char>>,
    type_generics: Seq<char>,
    where_clause: Seq<char>,
    names: Seq<Seq<char>>,
) -> Seq<char> {
    impl_header_text("::mlua::intolua<'lua>"@, name, generics, type_generics, where_clause)
        + "    fn into_lua(self, lua: &'lua ::mlua::Lua) -> ::mlua::result<::mlua::value<'lua>> {\n        let t = lua.create_table()?;\n        for v in self.__arr {\n            t.push(v);\n        }\n"@
        + field_writes_text(names) + "\n        ok(::mlua::value::table(t))\n    }\n}\n"@
}

/// Trying one variant of a union.
pub open spec fn union_arm_text(ty: Seq<char>, variant: Seq<char>) -> Seq<char> {
    "        match <"@ + ty
        + " as ::mlua::FromLua>::from_lua(lua_value.clone(), lua) {\n            Ok(v) => {\n                return Ok(Self::"@
        + variant + " (v))\n            }\n            Err(_) => (),\n        }"@
}

/// Trying each variant of a union, in order.
pub open spec fn union_arms(types: Seq<Seq<char>>, variants: Seq<Seq<char>>) -> Seq<Seq<char>> {
    Seq::new(variants.len(), |i: int| union_arm_text(types[i], variants[i]))
}

/// The arms that try each variant of a union, in order.
pub open spec fn union_from_arms_text(types: Seq<Seq<char>>, variants: Seq<Seq<char>>) -> Seq<char> {
    join(union_arms(types, variants), ";\n"@)
}

/// The arm that converts the value of one variant of a union.
pub open spec fn union_into_arm_text(variant: Seq<char>) -> Seq<char> {
    "            Self::"@ + variant + "(v) => ::mlua::IntoLua::into_lua(v, lua)"@
}

/// The arms that convert the value of each variant of a union, in order.
pub open spec fn union_into_arms_text(variants: Seq<Seq<char>>) -> Seq<char> {
    join(
        wrap_each(variants, "            Self::"@, "(v) => ::mlua::IntoLua::into_lua(v, lua)"@),
        ",\n"@,
    )
}

/// `FromLua` for a union: the first variant whose value converts.
pub open spec fn union_from_lua_text(
    name: Seq<char>,
    generics: Seq<Seq<char>>,
    type_generics: Seq<char>,
    where_clause: Seq<char>,
    variants: Seq<Seq<char>>,
    types: Seq<Seq<char>>,
) -> Seq<char> {
    impl_header_text("::mlua::FromLua<'lua>"@, name, generics, type_generics, where_clause)
        + "    fn from_lua(lua_value: ::mlua::Value<'lua>, lua: &'lua ::mlua::Lua) -> ::mlua::Result<Self> {\n"@
        + union_from_arms_text(types, variants)
        + "\n        Err(::mlua::Error::FromLuaConversionError {\n            from: lua_value.type_name(),\n            to: stringify!("@
        + name
        + "),\n            message: Some(format!(\"{} is not a of a valid type\", lua_value.type_name())),\n        })\n    }\n}\n"@
}

/// `IntoLua` for a union: convert the value that the variant holds.
pub open spec fn union_into_lua_text(
    name: Seq<char>,
    generics: Seq<Seq<char>>,
    type_generics: Seq<char>,
    where_clause: Seq<char>,
    variants: Seq<Seq<char>>,
) -> Seq<char> {
    impl_header_text("::mlua::IntoLua<'lua>"@, name, generics, type_generics, where_clause)
        + "    fn into_lua(self, lua: &'lua ::mlua::Lua) -> ::mlua::Result<::mlua::Value<'lua>> {\n        match self {\n"@
        + union_into_arms_text(variants) + "\n        }\n    }\n}\n"@
}

/// `FromLua` for a named struct, with or without an array part.
pub open spec fn struct_from_lua_text(
    name: Seq<char>,
    generics: Seq<Seq<char>>,
    type_generics: Seq<char>,
    where_clause: Seq<char>,
    names: Seq<Seq<char>>,
) -> Seq<char> {
    if names.contains("__arr"@) {
        array_record_from_lua_text(name, generics, type_generics, where_clause, array_fields(names))
    } else {
        record_from_lua_text(name, generics, type_generics, where_clause, names)
    }
}

/// `IntoLua` for a named struct, with or without an array part.
pub open spec fn struct_into_lua_text(
    name: Seq<char>,
    generics: Seq<Seq<char>>,
    type_generics: Seq<char>,
    where_clause: Seq<char>,
    names: Seq<Seq<char>>,
) -> Seq<char> {
    if names.contains("__arr"@) {
        array_record_into_lua_text(name, generics, type_generics, where_clause, array_fields(names))
    } else {
        record_into_lua_text(name, generics, type_generics, where_clause, names)
    }
}

/// The `FromLua` impl for an accepted item.
pub open spec fn from_lua_text(input: DeriveInput) -> Seq<char> {
    let name = input.ident@;
    let generics = strings_view(input.type_params@);
    let tg = type_generics_text(strings_view(input.lifetimes@), generics);
    let wc = where_clause_text(generics);
    match input.data {
        DeriveData::Struct(fs) => struct_from_lua_text(name, generics, tg, wc, field_names(fs@)),
        DeriveData::Enum(vs) => union_from_lua_text(
            name,
            generics,
            tg,
            wc,
            variant_names(vs@),
            variant_types(vs@),
        ),
        DeriveData::Union => Seq::empty(),
    }
}

/// The `IntoLua` impl for an accepted item.
pub open spec fn into_lua_text(input: DeriveInput) -> Seq<char> {
    let name = input.ident@;
    let generics = strings_view(input.type_params@);
    let tg = type_generics_text(strings_view(input.lifetimes@), generics);
    let wc = where_clause_text(generics);
    match input.data {
        DeriveData::Struct(fs) => struct_into_lua_text(name, generics, tg, wc, field_names(fs@)),
        DeriveData::Enum(vs) => union_into_lua_text(name, generics, tg, wc, variant_names(vs@)),
        DeriveData::Union => Seq::empty(),
    }
}

/// What the derive generates for an accepted item: the `FromLua` impl, then the `IntoLua` impl.
pub open spec fn derive_text(input: DeriveInput) -> Seq<char> {
    from_lua_text(input) + into_lua_text(input)
}

// ---------------------------------------------------------------------------
// Generating the text

/// The names of the fields, all of which have one.
fn named_field_names(fields: &Vec<FieldDef>) -> (res: Vec<String>)
    requires
        all_named(fields@),
    ensures
        strings_view(res@) == field_names(fields@),
{
    let mut out: Vec<String> = Vec::new();
    let mut i: usize = 0;
    while i < fields.len()
        invariant
            i <= fields.len(),
            all_named(fields@),
            strings_view(out@) == field_names(fields@.take(i as int)),
        decreases fields.len() - i,
    {
        assert(fields@[i as int].ident is Some);
        let name = match &fields[i].ident {
            Some(n) => n.clone(),
            None => String::new(),
        };
        let ghost prev = out@;
        out.push(name);
        assert(fields@.take(i + 1) =~= fields@.take(i as int).push(fields@[i as int]));
        assert(strings_view(out@) =~= strings_view(prev).push(name@));
        assert(strings_view(out@) =~= field_names(fields@.take(i + 1)));
        i = i + 1;
    }
    assert(fields@.take(i as int) =~= fields@);
    out
}

/// The names of the variants.
fn variant_idents(e: &Vec<VariantDef>) -> (res: Vec<String>)
    ensures
        strings_view(res@) == variant_names(e@),
        res.len() == e.len(),
{
    let mut out: Vec<String> = Vec::new();
    let mut i: usize = 0;
    while i < e.len()
        invariant
            i <= e.len(),
            strings_view(out@) == variant_names(e@.take(i as int)),
        decreases e.len() - i,
    {
        let name = e[i].ident.clone();
        let ghost prev = out@;
        out.push(name);
        assert(e@.take(i + 1) =~= e@.take(i as int).push(e@[i as int]));
        assert(strings_view(out@) =~= strings_view(prev).push(name@));
        assert(strings_view(out@) =~= variant_names(e@.take(i + 1)));
        i = i + 1;
    }
    assert(e@.take(i as int) =~= e@);
    assert(out@.len() == strings_view(out@).len());
    out
}

/// The type of the value of each variant, every variant holding one.
fn variant_value_types(e: &Vec<VariantDef>) -> (res: Vec<String>)
    requires
        all_single_valued(e@),
    ensures
        strings_view(res@) == variant_types(e@),
        res.len() == e.len(),
{
    let mut out: Vec<String> = Vec::new();
    let mut i: usize = 0;
    while i < e.len()
        invariant
            i <= e.len(),
            all_single_valued(e@),
            strings_view(out@) == variant_types(e@.take(i as int)),
        decreases e.len() - i,
    {
        assert(e@[i as int].fields.len() == 1);
        let ty = e[i].fields[0].ty.clone();
        let ghost prev = out@;
        out.push(ty);
        assert(e@.take(i + 1) =~= e@.take(i as int).push(e@[i as int]));
        assert(strings_view(out@) =~= strings_view(prev).push(ty@));
        assert(strings_view(out@) =~= variant_types(e@.take(i + 1)));
        i = i + 1;
    }
    assert(e@.take(i as int) =~= e@);
    assert(out@.len() == strings_view(out@).len());
    out
}

/// Whether one of `names` is `__arr`.
fn has_array_field(names: &Vec<String>) -> (res: bool)
    ensures
        res == strings_view(names@).contains("__arr"@),
{
    let mut i: usize = 0;
    while i < names.len()
        invariant
            i <= names.len(),
            forall|j: int| 0 <= j < i ==> names@[j]@ != "__arr"@,
        decreases names.len() - i,
    {
        if text_is(&names[i], "__arr") {
            assert(strings_view(names@)[i as int] == "__arr"@);
            return true;
        }
        i = i + 1;
    }
    assert forall|j: int| 0 <= j < strings_view(names@).len() implies strings_view(names@)[j]
        != "__arr"@ by {
        assert(strings_view(names@)[j] == names@[j]@);
    }
    false
}

/// The names among `names` that are `__arr`.
fn only_array_fields(names: &Vec<String>) -> (res: Vec<String>)
    ensures
        strings_view(res@) == array_fields(strings_view(names@)),
{
    let ghost all = strings_view(names@);
    let mut out: Vec<String> = Vec::new();
    let mut i: usize = 0;
    assert(all.take(0) =~= Seq::<Seq<char>>::empty());
    while i < names.len()
        invariant
            i <= names.len(),
            all == strings_view(names@),
            strings_view(out@) == array_fields(all.take(i as int)),
        decreases names.len() - i,
    {
        assert(all.take(i + 1).drop_last() =~= all.take(i as int));
        assert(all.take(i + 1).last() == names@[i as int]@);
        if text_is(&names[i], "__arr") {
            let n = names[i].clone();
            let ghost prev = out@;
            out.push(n);
            assert(strings_view(out@) =~= strings_view(prev).push(n@));
        }
        i = i + 1;
    }
    assert(all.take(i as int) =~= all);
    out
}

/// The generics that follow the type's name in an impl header.
pub fn type_generics(lifetimes: &Vec<String>, generics: &Vec<String>) -> (res: String)
    ensures
        res@ == type_generics_text(strings_view(lifetimes@), strings_view(generics@)),
{
    if generics.len() > 0 || lifetimes.len() > 0 {
        let mut s: String = "<".to_owned();
        if lifetimes.len() > 0 {
            s.append("'lua, ");
        }
        let ghost head = s@;
        let joined = join_texts(generics, ", ");
        s.append(joined.as_str());
        s.append(">");
        assert(s@ =~= head + joined@ + ">"@);
        s
    } else {
        String::new()
    }
}

/// The `where` clause that bounds each type parameter by `FromLua`.
pub fn where_clause(generics: &Vec<String>) -> (res: String)
    ensures
        res@ == where_clause_text(strings_view(generics@)),
{
    let mut s: String = "where\n    ".to_owned();
    let bounds = wrap_texts(generics, "", ": ::mlua::FromLua<'lua>");
    let joined = join_texts(&bounds, ", ");
    s.append(joined.as_str());
    s
}

/// The header of an impl of `trait_path` for the type.
fn impl_header(
    trait_path: &str,
    name: &String,
    generics: &Vec<String>,
    type_generics: &String,
    where_clause: &String,
) -> (res: String)
    ensures
        res@ == impl_header_text(
            trait_path@,
            name@,
            strings_view(generics@),
            type_generics@,
            where_clause@,
        ),
{
    let mut s: String = "impl<'lua".to_owned();
    let params = join_texts(&wrap_texts(generics, ", ", ""), "");
    s.append(params.as_str());
    s.append("> ");
    s.append(trait_path);
    s.append(" for ");
    s.append(name.as_str());
    s.append(" ");
    s.append(type_generics.as_str());
    s.append(" ");
    s.append(where_clause.as_str());
    s.append(" {\n");
    assert(s@ =~= impl_header_text(
        trait_path@,
        name@,
        strings_view(generics@),
        type_generics@,
        where_clause@,
    ));
    s
}

/// The failure that a conversion from a Lua value other than a table reports.
fn not_a_table(name: &String) -> (res: String)
    ensures
        res@ == not_a_table_text(name@),
{
    let mut s: String = "        } else {\n            Err(::mlua::Error::FromLuaConversionError {\n                from: lua_value.type_name(),\n                to: stringify!(".to_owned();
    s.append(name.as_str());
    s.append(
        "),\n                message: Some(format!(\"{} is not a table\", lua_value.type_name())),\n            })\n        }\n    }\n}\n",
    );
    s
}

/// Reading each field from the table.
fn field_reads(names: &Vec<String>) -> (res: String)
    ensures
        res@ == field_reads_text(strings_view(names@)),
{
    join_texts(&wrap_texts_twice(names, "                ", ": t.get(stringify!(", "))?"), ",\n")
}

/// Writing each field into the table.
fn field_writes(names: &Vec<String>) -> (res: String)
    ensures
        res@ == field_writes_text(strings_view(names@)),
{
    join_texts(&wrap_texts_twice(names, "        t.set(stringify!(", "), self.", ")?;"), ";\n")
}

/// `FromLua` for a struct with an array part: read the given fields, then the sequence.
pub fn array_record_from_lua(
    name: &String,
    generics: &Vec<String>,
    type_generics: &String,
    where_clause: &String,
    fields: &Vec<String>,
) -> (res: String)
    ensures
        res@ == array_record_from_lua_text(
            name@,
            strings_view(generics@),
            type_generics@,
            where_clause@,
            strings_view(fields@),
        ),
{
    let mut s = impl_header("::mlua::FromLua<'lua>", name, generics, type_generics, where_clause);
    s.append(
        "    fn from_lua(lua_value: ::mlua::Value<'lua>, _: &'lua ::mlua::Lua) -> ::mlua::Result<Self> {\n        if let ::mlua::Value::Table(t) = lua_value {\n            let mut s = Self {\n                __arr: Vec::new(),\n",
    );
    let reads = field_reads(fields);
    s.append(reads.as_str());
    s.append(
        "\n            };\n            s.__arr = t.sequence_values().collect::<Result<Vec<_>>>()?;\n            Ok(s)\n",
    );
    let tail = not_a_table(name);
    s.append(tail.as_str());
    s
}

/// `IntoLua` for a struct with an array part: push the sequence, then write the given fields.
pub fn array_record_into_lua(
    name: &String,
    generics: &Vec<String>,
    type_generics: &String,
    where_clause: &String,
    fields: &Vec<String>,
) -> (res: String)
    ensures
        res@ == array_record_into_lua_text(
            name@,
            strings_view(generics@),
            type_generics@,
            where_clause@,
            strings_view(fields@),
        ),
{
    let mut s = impl_header("::mlua::intolua<'lua>", name, generics, type_generics, where_clause);
    s.append(
        "    fn into_lua(self, lua: &'lua ::mlua::Lua) -> ::mlua::result<::mlua::value<'lua>> {\n        let t = lua.create_table()?;\n        for v in self.__arr {\n            t.push(v);\n        }\n",
    );
    let writes = field_writes(fields);
    s.append(writes.as_str());
    s.append("\n        ok(::mlua::value::table(t))\n    }\n}\n");
    s
}

/// `FromLua` for a named struct, with or without an array part.
pub fn record_from_lua(
    name: &String,
    generics: &Vec<String>,
    type_generics: &String,
    where_clause: &String,
    fields: &Vec<FieldDef>,
) -> (res: String)
    requires
        all_named(fields@),
    ensures
        res@ == struct_from_lua_text(
            name@,
            strings_view(generics@),
            type_generics@,
            where_clause@,
            field_names(fields@),
        ),
{
    let names = named_field_names(fields);
    if has_array_field(&names) {
        let arr = only_array_fields(&names);
        return array_record_from_lua(name, generics, type_generics, where_clause, &arr);
    }
    let mut s = impl_header("::mlua::FromLua<'lua>", name, generics, type_generics, where_clause);
    s.append(
        "    fn from_lua(lua_value: ::mlua::Value<'lua>, _: &'lua ::mlua::Lua) -> ::mlua::Result<Self> {\n        if let ::mlua::Value::Table(t) = lua_value {\n            Ok(Self {\n",
    );
    let reads = field_reads(&names);
    s.append(reads.as_str());
    s.append("\n            })\n");
    let tail = not_a_table(name);
    s.append(tail.as_str());
    s
}

/// `IntoLua` for a named struct, with or without an array part.
pub fn record_into_lua(
    name: &String,
    generics: &Vec<String>,
    type_generics: &String,
    where_clause: &String,
    fields: &Vec<FieldDef>,
) -> (res: String)
    requires
        all_named(fields@),
    ensures
        res@ == struct_into_lua_text(
            name@,
            strings_view(generics@),
            type_generics@,
            where_clause@,
            field_names(fields@),
        ),
{
    let names = named_field_names(fields);
    if has_array_field(&names) {
        let arr = only_array_fields(&names);
        return array_record_into_lua(name, generics, type_generics, where_clause, &arr);
    }
    let mut s = impl_header("::mlua::IntoLua<'lua>", name, generics, type_generics, where_clause);
    s.append(
        "    fn into_lua(self, lua: &'lua ::mlua::Lua) -> ::mlua::Result<::mlua::Value<'lua>> {\n        let t = lua.create_table()?;\n",
    );
    let writes = field_writes(&names);
    s.append(writes.as_str());
    s.append("\n        Ok(::mlua::Value::Table(t))\n    }\n}\n");
    s
}

/// `FromLua` for a union: the first variant whose value converts.
pub fn union_from_lua(
    name: &String,
    generics: &Vec<String>,
    type_generics: &String,
    where_clause: &String,
    variants: &Vec<String>,
    e: &Vec<VariantDef>,
) -> (res: String)
    requires
        all_single_valued(e@),
        variants.len() == e.len(),
    ensures
        res@ == union_from_lua_text(
            name@,
            strings_view(generics@),
            type_generics@,
            where_clause@,
            strings_view(variants@),
            variant_types(e@),
        ),
{
    let types = variant_value_types(e);
    let ghost tys = strings_view(types@);
    let ghost vars = strings_view(variants@);
    let mut arms: Vec<String> = Vec::new();
    let mut i: usize = 0;
    while i < variants.len()
        invariant
            i <= variants.len(),
            types.len() == variants.len(),
            tys == strings_view(types@),
            vars == strings_view(variants@),
            strings_view(arms@) == union_arms(tys, vars).take(i as int),
        decreases variants.len() - i,
    {
        let mut arm: String = "        match <".to_owned();
        arm.append(types[i].as_str());
        arm.append(
            " as ::mlua::FromLua>::from_lua(lua_value.clone(), lua) {\n            Ok(v) => {\n                return Ok(Self::",
        );
        arm.append(variants[i].as_str());
        arm.append(" (v))\n            }\n            Err(_) => (),\n        }");
        assert(arm@ =~= union_arm_text(tys[i as int], vars[i as int]));
        let ghost prev = arms@;
        arms.push(arm);
        assert(strings_view(arms@) =~= strings_view(prev).push(arm@));
        assert(strings_view(arms@) =~= union_arms(tys, vars).take(i + 1));
        i = i + 1;
    }
    assert(union_arms(tys, vars).take(i as int) =~= union_arms(tys, vars));
    let mut s = impl_header("::mlua::FromLua<'lua>", name, generics, type_generics, where_clause);
    s.append(
        "    fn from_lua(lua_value: ::mlua::Value<'lua>, lua: &'lua ::mlua::Lua) -> ::mlua::Result<Self> {\n",
    );
    let joined = join_texts(&arms, ";\n");
    s.append(joined.as_str());
    s.append(
        "\n        Err(::mlua::Error::FromLuaConversionError {\n            from: lua_value.type_name(),\n            to: stringify!(",
    );
    s.append(name.as_str());
    s.append(
        "),\n            message: Some(format!(\"{} is not a of a valid type\", lua_value.type_name())),\n        })\n    }\n}\n",
    );
    s
}

/// `IntoLua` for a union: convert the value that the variant holds.
pub fn union_into_lua(
    name: &String,
    generics: &Vec<String>,
    type_generics: &String,
    where_clause: &String,
    variants: &Vec<String>,
) -> (res: String)
    ensures
        res@ == union_into_lua_text(
            name@,
            strings_view(generics@),
            type_generics@,
            where_clause@,
            strings_view(variants@),
        ),
{
    let mut s = impl_header("::mlua::IntoLua<'lua>", name, generics, type_generics, where_clause);
    s.append(
        "    fn into_lua(self, lua: &'lua ::mlua::Lua) -> ::mlua::Result<::mlua::Value<'lua>> {\n        match self {\n",
    );
    let arms = join_texts(
        &wrap_texts(variants, "            Self::", "(v) => ::mlua::IntoLua::into_lua(v, lua)"),
        ",\n",
    );
    s.append(arms.as_str());
    s.append("\n        }\n    }\n}\n");
    s
}

/// `FromLua` for an enum, every variant of which holds one value: a union.
pub fn enum_from_lua(
    name: &String,
    generics: &Vec<String>,
    type_generics: &String,
    where_clause: &String,
    variants: &Vec<String>,
    e: &Vec<VariantDef>,
) -> (res: String)
    requires
        all_single_valued(e@),
        variants.len() == e.len(),
    ensures
        res@ == union_from_lua_text(
            name@,
            strings_view(generics@),
            type_generics@,
            where_clause@,
            strings_view(variants@),
            variant_types(e@),
        ),
{
    union_from_lua(name, generics, type_generics, where_clause, variants, e)
}

/// `IntoLua` for an enum, every variant of which holds one value: a union.
pub fn enum_into_lua(
    name: &String,
    generics: &Vec<String>,
    type_generics: &String,
    where_clause: &String,
    variants: &Vec<String>,
    e: &Vec<VariantDef>,
) -> (res: String)
    requires
        all_single_valued(e@),
    ensures
        res@ == union_into_lua_text(
            name@,
            strings_view(generics@),
            type_generics@,
            where_clause@,
            strings_view(variants@),
        ),
{
    union_into_lua(name, generics, type_generics, where_clause, variants)
}

/// The `FromLua` impl for an accepted item.
pub fn impl_from_lua(input: &DeriveInput) -> (res: String)
    requires
        derivable(*input),
    ensures
        res@ == from_lua_text(*input),
{
    let name = &input.ident;
    let generics = &input.type_params;
    let tg = type_generics(&input.lifetimes, generics);
    let wc = where_clause(generics);
    match &input.data {
        DeriveData::Struct(s) => record_from_lua(name, generics, &tg, &wc, s),
        DeriveData::Enum(e) => {
            let variants = variant_idents(e);
            enum_from_lua(name, generics, &tg, &wc, &variants, e)
        },
        DeriveData::Union => String::new(),
    }
}

/// The `IntoLua` impl for an accepted item.
pub fn impl_into_lua(input: &DeriveInput) -> (res: String)
    requires
        derivable(*input),
    ensures
        res@ == into_lua_text(*input),
{
    let name = &input.ident;
    let generics = &input.type_params;
    let tg = type_generics(&input.lifetimes, generics);
    let wc = where_clause(generics);
    match &input.data {
        DeriveData::Struct(s) => record_into_lua(name, generics, &tg, &wc, s),
        DeriveData::Enum(e) => {
            let variants = variant_idents(e);
            enum_into_lua(name, generics, &tg, &wc, &variants, e)
        },
        DeriveData::Union => String::new(),
    }
}

/// What the derive generates for an accepted item: the `FromLua` impl, then the `IntoLua` impl.
pub fn derive_lua_convert(input: &DeriveInput) -> (res: String)
    requires
        derivable(*input),
    ensures
        res@ == derive_text(*input),
{
    let mut s = impl_from_lua(input);
    let into = impl_into_lua(input);
    s.append(into.as_str());
    s
}

// ---------------------------------------------------------------------------
// Laws

/// The type parameters of an impl after `'lua`: `, p` for each parameter `p`, in order,
/// with nothing between the pieces.
pub open spec fn type_param_list(generics: Seq<Seq<char>>) -> Seq<char>
    decreases generics.len(),
{
    if generics.len() == 0 {
        Seq::empty()
    } else {
        type_param_list(generics.drop_last()) + ", "@ + generics.last()
    }
}

/// Joining with nothing between the pieces concatenates the pieces.
proof fn lemma_join_unseparated_params(generics: Seq<Seq<char>>)
    ensures
        join(wrap_each(generics, ", "@, ""@), ""@) == type_param_list(generics),
    decreases generics.len(),
{
    reveal_strlit("");
    if generics.len() > 0 {
        let init = generics.drop_last();
        lemma_join_unseparated_params(init);
        assert(wrap_each(generics, ", "@, ""@).drop_last() =~= wrap_each(init, ", "@, ""@));
        if generics.len() == 1 {
            assert(init =~= Seq::<Seq<char>>::empty());
            assert(type_param_list(init) =~= Seq::<char>::empty());
            assert(join(wrap_each(generics, ", "@, ""@), ""@) =~= type_param_list(generics));
        } else {
            assert(join(wrap_each(generics, ", "@, ""@), ""@) =~= type_param_list(generics));
        }
    }
}

/// Every impl header opens with `impl<'lua` followed by `, p` for each type parameter `p`,
/// in order, then names the trait, the type, its generics and the `where` clause.
pub proof fn law_impl_header_lists_each_parameter(
    trait_path: Seq<char>,
    name: Seq<char>,
    generics: Seq<Seq<char>>,
    type_generics: Seq<char>,
    where_clause: Seq<char>,
)
    ensures
        impl_header_text(trait_path, name, generics, type_generics, where_clause) == "impl<'lua"@
            + type_param_list(generics) + "> "@ + trait_path + " for "@ + name + " "@
            + type_generics + " "@ + where_clause + " {\n"@,
{
    lemma_join_unseparated_params(generics);
}

/// Writing one field into the table.
pub open spec fn field_write_text(name: Seq<char>) -> Seq<char> {
    "        t.set(stringify!("@ + name + "), self."@ + name + ")?;"@
}

/// Reading one field from the table.
pub open spec fn field_read_text(name: Seq<char>) -> Seq<char> {
    "                "@ + name + ": t.get(stringify!("@ + name + "))?"@
}

/// One write per field, in order: no fields write nothing, one field writes itself, and a
/// further field adds its write after the writes of the fields before it.
pub proof fn law_field_writes_one_per_field(names: Seq<Seq<char>>, f: Seq<char>)
    ensures
        field_writes_text(Seq::empty()) == Seq::<char>::empty(),
        field_writes_text(seq![f]) == field_write_text(f),
        names.len() > 0 ==> field_writes_text(names.push(f)) == field_writes_text(names) + ";\n"@
            + field_write_text(f),
{
    assert(wrap_each_twice(Seq::empty(), "        t.set(stringify!("@, "), self."@, ")?;"@)
        =~= Seq::<Seq<char>>::empty());
    assert(wrap_each_twice(seq![f], "        t.set(stringify!("@, "), self."@, ")?;"@) =~= seq![
        field_write_text(f),
    ]);
    assert(wrap_each_twice(names.push(f), "        t.set(stringify!("@, "), self."@, ")?;"@)
        =~= wrap_each_twice(names, "        t.set(stringify!("@, "), self."@, ")?;"@).push(
        field_write_text(f),
    ));
    assert(wrap_each_twice(names.push(f), "        t.set(stringify!("@, "), self."@, ")?;"@).drop_last()
        =~= wrap_each_twice(names, "        t.set(stringify!("@, "), self."@, ")?;"@));
}

/// One read per field, in order: no fields read nothing, one field reads itself, and a
/// further field adds its read after the reads of the fields before it.
pub proof fn law_field_reads_one_per_field(names: Seq<Seq<char>>, f: Seq<char>)
    ensures
        field_reads_text(Seq::empty()) == Seq::<char>::empty(),
        field_reads_text(seq![f]) == field_read_text(f),
        names.len() > 0 ==> field_reads_text(names.push(f)) == field_reads_text(names) + ",\n"@
            + field_read_text(f),
{
    assert(wrap_each_twice(Seq::empty(), "                "@, ": t.get(stringify!("@, "))?"@)
        =~= Seq::<Seq<char>>::empty());
    assert(wrap_each_twice(seq![f], "                "@, ": t.get(stringify!("@, "))?"@) =~= seq![
        field_read_text(f),
    ]);
    assert(wrap_each_twice(names.push(f), "                "@, ": t.get(stringify!("@, "))?"@)
        =~= wrap_each_twice(names, "                "@, ": t.get(stringify!("@, "))?"@).push(
        field_read_text(f),
    ));
    assert(wrap_each_twice(names.push(f), "                "@, ": t.get(stringify!("@, "))?"@).drop_last()
        =~= wrap_each_twice(names, "                "@, ": t.get(stringify!("@, "))?"@));
}

/// The bound that the `where` clause puts on one type parameter.
pub open spec fn where_bound_text(param: Seq<char>) -> Seq<char> {
    param + ": ::mlua::FromLua<'lua>"@
}

/// The `where` clause bounds each type parameter once, in order: with no parameters it
/// bounds none, and a further parameter adds its bound after those before it.
pub proof fn law_where_clause_bounds_each_parameter(generics: Seq<Seq<char>>, p: Seq<char>)
    ensures
        where_clause_text(Seq::empty()) == "where\n    "@,
        where_clause_text(seq![p]) == "where\n    "@ + where_bound_text(p),
        generics.len() > 0 ==> where_clause_text(generics.push(p)) == where_clause_text(generics)
            + ", "@ + where_bound_text(p),
{
    reveal_strlit("");
    assert(wrap_each(Seq::empty(), ""@, ": ::mlua::FromLua<'lua>"@) =~= Seq::<Seq<char>>::empty());
    assert(("where\n    "@ + Seq::<char>::empty()) =~= "where\n    "@);
    assert(wrap_each(seq![p], ""@, ": ::mlua::FromLua<'lua>"@) =~= seq![where_bound_text(p)]);
    assert(""@ + p =~= p);
    let g2 = generics.push(p);
    assert(wrap_each(g2, ""@, ": ::mlua::FromLua<'lua>"@).drop_last() =~= wrap_each(
        generics,
        ""@,
        ": ::mlua::FromLua<'lua>"@,
    ));
    assert(wrap_each(g2, ""@, ": ::mlua::FromLua<'lua>"@).last() =~= where_bound_text(p));
    if generics.len() > 0 {
        assert(where_clause_text(g2) =~= where_clause_text(generics) + ", "@ + where_bound_text(p));
    }
}

/// The `IntoLua` match of a union has one arm per variant, in order.
pub proof fn law_union_into_arms_one_per_variant(variants: Seq<Seq<char>>, v: Seq<char>)
    ensures
        union_into_arms_text(Seq::empty()) == Seq::<char>::empty(),
        union_into_arms_text(seq![v]) == union_into_arm_text(v),
        variants.len() > 0 ==> union_into_arms_text(variants.push(v)) == union_into_arms_text(
            variants,
        ) + ",\n"@ + union_into_arm_text(v),
{
    let b = "            Self::"@;
    let a = "(v) => ::mlua::IntoLua::into_lua(v, lua)"@;
    assert(wrap_each(Seq::empty(), b, a) =~= Seq::<Seq<char>>::empty());
    assert(wrap_each(seq![v], b, a) =~= seq![b + v + a]);
    assert(wrap_each(variants.push(v), b, a).drop_last() =~= wrap_each(variants, b, a));
    assert(wrap_each(variants.push(v), b, a).last() == b + v + a);
    if variants.len() > 0 {
        assert(union_into_arms_text(variants.push(v)) =~= union_into_arms_text(variants) + ",\n"@
            + union_into_arm_text(v));
    }
}

/// The `FromLua` of a union tries one arm per variant, in order, each with that variant's type.
pub proof fn law_union_from_arms_one_per_variant(
    types: Seq<Seq<char>>,
    variants: Seq<Seq<char>>,
    t: Seq<char>,
    v: Seq<char>,
)
    requires
        types.len() == variants.len(),
    ensures
        union_from_arms_text(Seq::empty(), Seq::empty()) == Seq::<char>::empty(),
        union_from_arms_text(seq![t], seq![v]) == union_arm_text(t, v),
        variants.len() > 0 ==> union_from_arms_text(types.push(t), variants.push(v))
            == union_from_arms_text(types, variants) + ";\n"@ + union_arm_text(t, v),
{
    assert(union_arms(Seq::empty(), Seq::empty()) =~= Seq::<Seq<char>>::empty());
    assert(union_arms(seq![t], seq![v]) =~= seq![union_arm_text(t, v)]);
    let all = union_arms(types.push(t), variants.push(v));
    assert(all.drop_last() =~= union_arms(types, variants));
    assert(all.last() == union_arm_text(t, v));
}

/// The fields that make up the array part are exactly the fields named `__arr`, in order.
pub proof fn law_array_fields_are_those_named_arr(names: Seq<Seq<char>>)
    ensures
        array_fields(names) == names.filter(|n: Seq<char>| n == "__arr"@),
    decreases names.len(),
{
    reveal(Seq::filter);
    if names.len() > 0 {
        law_array_fields_are_those_named_arr(names.drop_last());
    }
}

} // verus!
