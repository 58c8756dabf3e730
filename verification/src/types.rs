//! The Teal type definitions that the library reads: types, functions, enums
//! and records, each with its mathematical model.

use std::rc::Rc;

use vstd::prelude::*;

use crate::type_map::TypeMap;

verus! {

/// The type parameters of a generic definition, by name.
pub type TypeArgs = Vec<String>;

/// A Teal enum: a name and the strings it admits.
#[derive(Debug, Clone)]
pub struct Enum {
    pub name: String,
    pub variants: Vec<String>,
}

/// A Teal function type.
#[derive(Debug)]
pub struct Function {
    pub type_args: TypeArgs,
    pub parameter_types: Vec<Type>,
    pub return_types: Vec<Type>,
}

/// A Teal type.
#[derive(Debug)]
pub enum Type {
    Any,
    String,
    Boolean,
    Nil,
    Number,
    Integer,
    Tuple(Vec<Type>),
    Table(Rc<Type>, Rc<Type>),
    Function(Function),
    Array(Rc<Type>),
    Union(Vec<Type>),
}

/// A Teal record: a named table type with fields, and possibly an array part.
#[derive(Debug)]
pub struct Record {
    pub name: String,
    pub type_args: TypeArgs,
    pub array_type: Option<Type>,
    pub record_defs: Vec<Record>,
    pub enum_defs: Vec<Enum>,
    pub type_defs: TypeMap,
    pub fields: TypeMap,
}

/// The model of a [`Type`].
pub enum SpecType {
    Any,
    String,
    Boolean,
    Nil,
    Number,
    Integer,
    Tuple(Seq<SpecType>),
    Table(Box<SpecType>, Box<SpecType>),
    Function(SpecFunction),
    Array(Box<SpecType>),
    Union(Seq<SpecType>),
}

/// The model of a [`Function`].
pub struct SpecFunction {
    pub type_args: Seq<Seq<char>>,
    pub parameter_types: Seq<SpecType>,
    pub return_types: Seq<SpecType>,
}

/// The model of an [`Enum`].
pub struct SpecEnum {
    pub name: Seq<char>,
    pub variants: Seq<Seq<char>>,
}

/// The model of a [`Record`].
pub struct SpecRecord {
    pub name: Seq<char>,
    pub type_args: Seq<Seq<char>>,
    pub array_type: Option<SpecType>,
    pub record_defs: Seq<SpecRecord>,
    pub enum_defs: Seq<SpecEnum>,
    pub type_defs: Map<Seq<char>, SpecType>,
    pub fields: Map<Seq<char>, SpecType>,
}

/// The texts of a sequence of strings.
pub open spec fn strings_view(v: Seq<String>) -> Seq<Seq<char>> {
    v.map_values(|s: String| s@)
}

impl View for Type {
    type V = SpecType;

    open spec fn view(&self) -> SpecType
        decreases self,
    {
        match self {
            Type::Any => SpecType::Any,
            Type::String => SpecType::String,
            Type::Boolean => SpecType::Boolean,
            Type::Nil => SpecType::Nil,
            Type::Number => SpecType::Number,
            Type::Integer => SpecType::Integer,
            Type::Tuple(v) => SpecType::Tuple(
                Seq::new(
                    v.len() as nat,
                    |i: int|
                        if 0 <= i < v.len() {
                            v@[i].view()
                        } else {
                            SpecType::Nil
                        },
                ),
            ),
            Type::Table(k, v) => SpecType::Table(Box::new((**k).view()), Box::new((**v).view())),
            Type::Function(f) => SpecType::Function(
                SpecFunction {
                    type_args: strings_view(f.type_args@),
                    parameter_types: Seq::new(
                        f.parameter_types.len() as nat,
                        |i: int|
                            if 0 <= i < f.parameter_types.len() {
                                f.parameter_types@[i].view()
                            } else {
                                SpecType::Nil
                            },
                    ),
                    return_types: Seq::new(
                        f.return_types.len() as nat,
                        |i: int|
                            if 0 <= i < f.return_types.len() {
                                f.return_types@[i].view()
                            } else {
                                SpecType::Nil
                            },
                    ),
                },
            ),
            Type::Array(t) => SpecType::Array(Box::new((**t).view())),
            Type::Union(v) => SpecType::Union(
                Seq::new(
                    v.len() as nat,
                    |i: int|
                        if 0 <= i < v.len() {
                            v@[i].view()
                        } else {
                            SpecType::Nil
                        },
                ),
            ),
        }
    }
}

/// The models of a sequence of types.
pub open spec fn types_view(v: Seq<Type>) -> Seq<SpecType> {
    v.map_values(|t: Type| t@)
}

impl View for Function {
    type V = SpecFunction;

    open spec fn view(&self) -> SpecFunction {
        SpecFunction {
            type_args: strings_view(self.type_args@),
            parameter_types: types_view(self.parameter_types@),
            return_types: types_view(self.return_types@),
        }
    }
}

impl View for Enum {
    type V = SpecEnum;

    open spec fn view(&self) -> SpecEnum {
        SpecEnum { name: self.name@, variants: strings_view(self.variants@) }
    }
}

impl View for Record {
    type V = SpecRecord;

    open spec fn view(&self) -> SpecRecord
        decreases self,
    {
        SpecRecord {
            name: self.name@,
            type_args: strings_view(self.type_args@),
            array_type: match &self.array_type {
                Some(t) => Some(t@),
                None => None,
            },
            record_defs: Seq::new(
                self.record_defs.len() as nat,
                |i: int|
                    if 0 <= i < self.record_defs.len() {
                        self.record_defs@[i].view()
                    } else {
                        arbitrary()
                    },
            ),
            enum_defs: self.enum_defs@.map_values(|e: Enum| e@),
            type_defs: self.type_defs@,
            fields: self.fields@,
        }
    }
}

/// The model of a [`Function`] is the one that its [`Type`] carries.
pub proof fn lemma_function_view(f: Function)
    ensures
        Type::Function(f)@ == SpecType::Function(f@),
{
    assert(types_view(f.parameter_types@) =~= (Type::Function(f)@)->Function_0.parameter_types);
    assert(types_view(f.return_types@) =~= (Type::Function(f)@)->Function_0.return_types);
}

} // verus!
