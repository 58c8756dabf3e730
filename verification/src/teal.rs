//! Reading Teal types and records from their syntax trees.

use std::rc::Rc;

use vstd::prelude::*;

use crate::syntax::{derefs, field_child, named_nodes, text_is, texts, SyntaxChild, SyntaxNode};
use crate::type_map::TypeMap;
use crate::types::{lemma_function_view, types_view, Function, Record, SpecFunction, SpecEnum, SpecRecord, SpecType, Type};

verus! {

/// Why a syntax node could not be read as a type or a record.
#[derive(Debug)]
pub enum TealError {
    /// A simple type whose name is none of Teal's simple types.
    InvalidType(String),
    /// The node is not a record declaration.
    NotARecordDeclaration,
    /// The record declaration has no name.
    MissingRecordName,
    /// The record declaration has no body.
    MissingRecordBody,
    /// The array part of the record names no type.
    EmptyRecordArrayType,
}

/// The model of a [`TealError`].
pub enum SpecTealError {
    InvalidType(Seq<char>),
    NotARecordDeclaration,
    MissingRecordName,
    MissingRecordBody,
    EmptyRecordArrayType,
}

impl View for TealError {
    type V = SpecTealError;

    open spec fn view(&self) -> SpecTealError {
        match self {
            TealError::InvalidType(s) => SpecTealError::InvalidType(s@),
            TealError::NotARecordDeclaration => SpecTealError::NotARecordDeclaration,
            TealError::MissingRecordName => SpecTealError::MissingRecordName,
            TealError::MissingRecordBody => SpecTealError::MissingRecordBody,
            TealError::EmptyRecordArrayType => SpecTealError::EmptyRecordArrayType,
        }
    }
}

/// The text that describes an error.
pub open spec fn error_message(e: SpecTealError) -> Seq<char> {
    match e {
        SpecTealError::InvalidType(s) => s + " is not a valid type"@,
        SpecTealError::NotARecordDeclaration => "test"@,
        SpecTealError::MissingRecordName => "No record name"@,
        SpecTealError::MissingRecordBody => "No record body"@,
        SpecTealError::EmptyRecordArrayType => "no named child on record_array_type"@,
    }
}

impl TealError {
    /// The text that describes the error.
    pub fn message(&self) -> (res: String)
        ensures
            res@ == error_message(self@),
    {
        match self {
            TealError::InvalidType(s) => {
                let mut m = s.clone();
                m.append(" is not a valid type");
                m
            },
            TealError::NotARecordDeclaration => "test".to_owned(),
            TealError::MissingRecordName => "No record name".to_owned(),
            TealError::MissingRecordBody => "No record body".to_owned(),
            TealError::EmptyRecordArrayType => "no named child on record_array_type".to_owned(),
        }
    }
}

/// What reading a node gives in the model: a value, an error, or no answer at all
/// because the node (of the kind carried) is one that reading does not support.
pub enum Outcome<T> {
    Done(T),
    Failed(SpecTealError),
    Aborts(Seq<char>),
}

/// What reading a node gives: a value, an error, or the kind of a node that
/// reading does not support.
#[derive(Debug)]
pub enum Conversion<T> {
    Done(T),
    Failed(TealError),
    Aborts(String),
}

impl<T: View> View for Conversion<T> {
    type V = Outcome<T::V>;

    open spec fn view(&self) -> Outcome<T::V> {
        match self {
            Conversion::Done(t) => Outcome::Done(t@),
            Conversion::Failed(e) => Outcome::Failed(e@),
            Conversion::Aborts(k) => Outcome::Aborts(k@),
        }
    }
}

/// The outcome that a `Result` reports.
pub open spec fn outcome_of<T: View>(r: Result<T, TealError>) -> Outcome<T::V> {
    match r {
        Ok(t) => Outcome::Done(t@),
        Err(e) => Outcome::Failed(e@),
    }
}

/// The text of the failure when reading meets a node of kind `kind` that it does not support.
pub open spec fn unsupported_kind_text(kind: Seq<char>) -> Seq<char> {
    if kind == "table_type"@ {
        "not yet implemented: table_type not handled yet..."@
    } else {
        "internal error: entered unreachable code: "@ + kind + " is not a valid kind for a type node"@
    }
}

/// The text of the failure when reading meets a node of kind `kind` that it does not support.
pub fn unsupported_kind_message(kind: &String) -> (res: String)
    ensures
        res@ == unsupported_kind_text(kind@),
{
    if text_is(kind, "table_type") {
        "not yet implemented: table_type not handled yet...".to_owned()
    } else {
        let mut m: String = "internal error: entered unreachable code: ".to_owned();
        m.append(kind.as_str());
        m.append(" is not a valid kind for a type node");
        m
    }
}

// ---------------------------------------------------------------------------
// Unions

/// The members of the union that the node `n` spells: the named children of
/// the unions nested in it, in source order, each one itself no union.
pub open spec fn flatten_union(n: SyntaxNode) -> Seq<SyntaxNode> {
    flatten_children(n.children@)
}

/// The union members spelled by a sequence of children.
pub open spec fn flatten_children(cs: Seq<SyntaxChild>) -> Seq<SyntaxNode>
    decreases cs,
{
    if cs.len() == 0 {
        Seq::empty()
    } else {
        let rest = flatten_children(cs.drop_last());
        let c = cs.last();
        if !c.named {
            rest
        } else if c.node.kind@ == "type_union"@ {
            rest + flatten_children(c.node.children@)
        } else {
            rest.push(c.node)
        }
    }
}

/// No member of a flattened union is itself a union.
pub proof fn lemma_flatten_children_no_union(cs: Seq<SyntaxChild>)
    ensures
        forall|i: int|
            0 <= i < flatten_children(cs).len() ==> (#[trigger] flatten_children(cs)[i]).kind@
                != "type_union"@,
    decreases cs,
{
    if cs.len() > 0 {
        lemma_flatten_children_no_union(cs.drop_last());
        let c = cs.last();
        let rest = flatten_children(cs.drop_last());
        if c.named && c.node.kind@ == "type_union"@ {
            lemma_flatten_children_no_union(c.node.children@);
            let inner = flatten_children(c.node.children@);
            assert forall|i: int| 0 <= i < flatten_children(cs).len() implies (
            #[trigger] flatten_children(cs)[i]).kind@ != "type_union"@ by {
                if i < rest.len() {
                    assert(flatten_children(cs)[i] == rest[i]);
                } else {
                    assert(flatten_children(cs)[i] == inner[i - rest.len()]);
                }
            }
        } else if c.named {
            assert forall|i: int| 0 <= i < flatten_children(cs).len() implies (
            #[trigger] flatten_children(cs)[i]).kind@ != "type_union"@ by {
                if i < rest.len() {
                    assert(flatten_children(cs)[i] == rest[i]);
                }
            }
        }
    }
}

/// The members of the union that `node` spells, in source order: the named
/// children of `node`, where each that is itself a union is replaced by its own members.
pub fn flatten_type_union(node: &SyntaxNode) -> (res: Vec<&SyntaxNode>)
    ensures
        derefs(res@) == flatten_union(*node),
    decreases node,
{
    let mut out: Vec<&SyntaxNode> = Vec::new();
    let mut i: usize = 0;
    while i < node.children.len()
        invariant
            i <= node.children.len(),
            derefs(out@) == flatten_children(node.children@.take(i as int)),
        decreases node.children.len() - i,
    {
        let c = &node.children[i];
        let ghost before = out@;
        assert(node.children@.take(i + 1).drop_last() =~= node.children@.take(i as int));
        assert(node.children@.take(i + 1).last() == node.children@[i as int]);
        if c.named {
            if text_is(&c.node.kind, "type_union") {
                let mut inner = flatten_type_union(&c.node);
                let ghost inner_view = inner@;
                out.append(&mut inner);
                assert(derefs(out@) =~= derefs(before) + derefs(inner_view));
            } else {
                out.push(&c.node);
                assert(derefs(out@) =~= derefs(before).push(c.node));
            }
        }
        i = i + 1;
    }
    assert(node.children@.take(i as int) =~= node.children@);
    out
}

// ---------------------------------------------------------------------------
// Types

/// The simple type named `text`.
pub open spec fn simple_type_of(text: Seq<char>) -> Outcome<SpecType> {
    if text == "any"@ {
        Outcome::Done(SpecType::Any)
    } else if text == "integer"@ {
        Outcome::Done(SpecType::Integer)
    } else if text == "number"@ {
        Outcome::Done(SpecType::Number)
    } else if text == "nil"@ {
        Outcome::Done(SpecType::Nil)
    } else if text == "boolean"@ {
        Outcome::Done(SpecType::Boolean)
    } else if text == "string"@ {
        Outcome::Done(SpecType::String)
    } else {
        Outcome::Failed(SpecTealError::InvalidType(text))
    }
}

/// The texts of the named children of the child of `n` under `field`; none when there is no such child.
pub open spec fn field_texts(n: SyntaxNode, field: Seq<char>) -> Seq<Seq<char>> {
    match field_child(n.children@, field) {
        Some(c) => texts(named_nodes(c.children@)),
        None => Seq::empty(),
    }
}

/// Reading a node that is no union: a simple type, or a function type of which
/// only the type parameters are read.
pub open spec fn member_conversion(n: SyntaxNode) -> Outcome<SpecType> {
    if n.kind@ == "simple_type"@ {
        simple_type_of(n.text@)
    } else if n.kind@ == "function_type"@ {
        Outcome::Done(
            SpecType::Function(
                SpecFunction {
                    type_args: field_texts(n, "type_args"@),
                    parameter_types: Seq::empty(),
                    return_types: Seq::empty(),
                },
            ),
        )
    } else {
        Outcome::Aborts(n.kind@)
    }
}

/// Reading the members of a union, left to right: the first member that does not
/// read decides the outcome.
pub open spec fn members_conversion(ms: Seq<SyntaxNode>) -> Outcome<Seq<SpecType>>
    decreases ms.len(),
{
    if ms.len() == 0 {
        Outcome::Done(Seq::empty())
    } else {
        match members_conversion(ms.drop_last()) {
            Outcome::Done(prev) => match member_conversion(ms.last()) {
                Outcome::Done(t) => Outcome::Done(prev.push(t)),
                Outcome::Failed(e) => Outcome::Failed(e),
                Outcome::Aborts(k) => Outcome::Aborts(k),
            },
            Outcome::Failed(e) => Outcome::Failed(e),
            Outcome::Aborts(k) => Outcome::Aborts(k),
        }
    }
}

/// Reading a type node. A union reads as the tuple of its flattened members.
pub open spec fn type_conversion(n: SyntaxNode) -> Outcome<SpecType> {
    if n.kind@ == "type_union"@ {
        match members_conversion(flatten_union(n)) {
            Outcome::Done(ts) => Outcome::Done(SpecType::Tuple(ts)),
            Outcome::Failed(e) => Outcome::Failed(e),
            Outcome::Aborts(k) => Outcome::Aborts(k),
        }
    } else {
        member_conversion(n)
    }
}

/// Once a prefix of the members does not read, neither do all of them, for the same reason.
pub proof fn lemma_members_prefix(ms: Seq<SyntaxNode>, k: int)
    requires
        0 <= k <= ms.len(),
        !(members_conversion(ms.take(k)) is Done),
    ensures
        members_conversion(ms) == members_conversion(ms.take(k)),
    decreases ms.len() - k,
{
    if k < ms.len() {
        assert(ms.take(k + 1).drop_last() =~= ms.take(k));
        lemma_members_prefix(ms, k + 1);
    } else {
        assert(ms.take(k) =~= ms);
    }
}

/// Reads a simple type from its name.
fn simple_type(text: &String) -> (res: Conversion<Type>)
    ensures
        res@ == simple_type_of(text@),
{
    if text_is(text, "any") {
        Conversion::Done(Type::Any)
    } else if text_is(text, "integer") {
        Conversion::Done(Type::Integer)
    } else if text_is(text, "number") {
        Conversion::Done(Type::Number)
    } else if text_is(text, "nil") {
        Conversion::Done(Type::Nil)
    } else if text_is(text, "boolean") {
        Conversion::Done(Type::Boolean)
    } else if text_is(text, "string") {
        Conversion::Done(Type::String)
    } else {
        Conversion::Failed(TealError::InvalidType(text.clone()))
    }
}

/// Reads a node that is no union.
fn member_type(node: &SyntaxNode) -> (res: Conversion<Type>)
    ensures
        res@ == member_conversion(*node),
{
    if text_is(&node.kind, "simple_type") {
        simple_type(&node.text)
    } else if text_is(&node.kind, "function_type") {
        let type_args = match node.child_by_field_name("type_args") {
            Some(n) => n.named_children_texts(),
            None => Vec::new(),
        };
        let f = Function { type_args, parameter_types: Vec::new(), return_types: Vec::new() };
        proof {
            lemma_function_view(f);
            assert(f@.type_args =~= field_texts(*node, "type_args"@));
            assert(f@.parameter_types =~= Seq::<SpecType>::empty());
            assert(f@.return_types =~= Seq::<SpecType>::empty());
        }
        Conversion::Done(Type::Function(f))
    } else {
        Conversion::Aborts(node.kind.clone())
    }
}

impl Type {
    /// Reads the type that `node` spells, or the reason it spells none, or the kind
    /// of the node that reading does not support.
    pub fn convert(node: &SyntaxNode) -> (res: Conversion<Type>)
        ensures
            res@ == type_conversion(*node),
    {
        if !text_is(&node.kind, "type_union") {
            return member_type(node);
        }
        let members = flatten_type_union(node);
        let ghost ms = derefs(members@);
        let mut out: Vec<Type> = Vec::new();
        let mut i: usize = 0;
        assert(ms.take(0) =~= Seq::<SyntaxNode>::empty());
        assert(types_view(out@) =~= Seq::<SpecType>::empty());
        while i < members.len()
            invariant
                i <= members.len(),
                node.kind@ == "type_union"@,
                ms == derefs(members@),
                ms == flatten_union(*node),
                members_conversion(ms.take(i as int)) == Outcome::Done(types_view(out@)),
            decreases members.len() - i,
        {
            assert(ms.take(i + 1).drop_last() =~= ms.take(i as int));
            assert(ms.take(i + 1).last() == *members@[i as int]);
            match member_type(members[i]) {
                Conversion::Done(t) => {
                    let ghost before = out@;
                    out.push(t);
                    assert(types_view(out@) =~= types_view(before).push(t@));
                },
                Conversion::Failed(e) => {
                    proof {
                        lemma_members_prefix(ms, i + 1);
                    }
                    return Conversion::Failed(e);
                },
                Conversion::Aborts(k) => {
                    proof {
                        lemma_members_prefix(ms, i + 1);
                    }
                    return Conversion::Aborts(k);
                },
            }
            i = i + 1;
        }
        assert(ms.take(i as int) =~= ms);
        let res = Type::Tuple(out);
        assert(res@->Tuple_0 =~= types_view(out@));
        Conversion::Done(res)
    }

    /// Reads the type that `node` spells, or the reason it spells none.
    pub fn try_from(node: &SyntaxNode) -> (res: Result<Type, TealError>)
        requires
            !(type_conversion(*node) is Aborts),
        ensures
            outcome_of(res) == type_conversion(*node),
    {
        match Type::convert(node) {
            Conversion::Done(t) => Ok(t),
            Conversion::Failed(e) => Err(e),
            Conversion::Aborts(_) => {
                assert(false);
                Err(TealError::NotARecordDeclaration)
            },
        }
    }
}

// ---------------------------------------------------------------------------
// Records

/// The first node of kind `kind` in `ns`.
pub open spec fn first_of_kind(ns: Seq<SyntaxNode>, kind: Seq<char>) -> Option<SyntaxNode>
    decreases ns.len(),
{
    if ns.len() == 0 {
        None
    } else if ns[0].kind@ == kind {
        Some(ns[0])
    } else {
        first_of_kind(ns.drop_first(), kind)
    }
}

/// Reading the array part of a record body: the type under the first
/// `record_array_type` child, when there is one.
pub open spec fn array_type_conversion(body: SyntaxNode) -> Outcome<Option<SpecType>> {
    match first_of_kind(named_nodes(body.children@), "record_array_type"@) {
        None => Outcome::Done(None),
        Some(a) => if named_nodes(a.children@).len() == 0 {
            Outcome::Failed(SpecTealError::EmptyRecordArrayType)
        } else {
            match type_conversion(named_nodes(a.children@)[0]) {
                Outcome::Done(t) => Outcome::Done(Some(t)),
                Outcome::Failed(e) => Outcome::Failed(e),
                Outcome::Aborts(k) => Outcome::Aborts(k),
            }
        },
    }
}

/// What one child of a record body adds to the record's fields.
pub enum FieldOutcome {
    /// A field with this name and this type.
    Entry(Seq<char>, SpecType),
    /// Nothing: the child is no field, lacks a name or a type, or its type does not read.
    Skipped,
    /// Reading the field's type met a node of this kind, which reading does not support.
    Aborts(Seq<char>),
}

/// What the child `f` of a record body adds to the record's fields.
pub open spec fn field_outcome(f: SyntaxNode) -> FieldOutcome {
    if f.kind@ != "field"@ {
        FieldOutcome::Skipped
    } else {
        match field_child(f.children@, "key"@) {
            None => FieldOutcome::Skipped,
            Some(k) => match field_child(f.children@, "type"@) {
                None => FieldOutcome::Skipped,
                Some(t) => match type_conversion(t) {
                    Outcome::Done(ty) => FieldOutcome::Entry(k.text@, ty),
                    Outcome::Failed(_) => FieldOutcome::Skipped,
                    Outcome::Aborts(kind) => FieldOutcome::Aborts(kind),
                },
            },
        }
    }
}

/// The fields that the children `ns` of a record body declare, read left to right;
/// a later field of the same name replaces an earlier one.
pub open spec fn fields_conversion(ns: Seq<SyntaxNode>) -> Outcome<Map<Seq<char>, SpecType>>
    decreases ns.len(),
{
    if ns.len() == 0 {
        Outcome::Done(Map::empty())
    } else {
        match fields_conversion(ns.drop_last()) {
            Outcome::Done(m) => match field_outcome(ns.last()) {
                FieldOutcome::Entry(k, t) => Outcome::Done(m.insert(k, t)),
                FieldOutcome::Skipped => Outcome::Done(m),
                FieldOutcome::Aborts(kind) => Outcome::Aborts(kind),
            },
            other => other,
        }
    }
}

/// Reading a record declaration.
pub open spec fn record_conversion(n: SyntaxNode) -> Outcome<SpecRecord> {
    if n.kind@ != "record_declaration"@ {
        Outcome::Failed(SpecTealError::NotARecordDeclaration)
    } else {
        match field_child(n.children@, "name"@) {
            None => Outcome::Failed(SpecTealError::MissingRecordName),
            Some(name) => match field_child(n.children@, "record_body"@) {
                None => Outcome::Failed(SpecTealError::MissingRecordBody),
                Some(body) => match array_type_conversion(body) {
                    Outcome::Failed(e) => Outcome::Failed(e),
                    Outcome::Aborts(k) => Outcome::Aborts(k),
                    Outcome::Done(array_type) => match fields_conversion(
                        named_nodes(body.children@),
                    ) {
                        Outcome::Done(fields) => Outcome::Done(
                            SpecRecord {
                                name: name.text@,
                                type_args: field_texts(n, "typeargs"@),
                                array_type,
                                record_defs: Seq::empty(),
                                enum_defs: Seq::empty(),
                                type_defs: Map::empty(),
                                fields,
                            },
                        ),
                        Outcome::Failed(e) => Outcome::Failed(e),
                        Outcome::Aborts(k) => Outcome::Aborts(k),
                    },
                },
            },
        }
    }
}

/// Reading the fields never fails with an error.
pub proof fn lemma_fields_never_fail(ns: Seq<SyntaxNode>)
    ensures
        !(fields_conversion(ns) is Failed),
    decreases ns.len(),
{
    if ns.len() > 0 {
        lemma_fields_never_fail(ns.drop_last());
    }
}

/// Once the fields of a prefix do not read, neither do all of them, for the same reason.
pub proof fn lemma_fields_prefix(ns: Seq<SyntaxNode>, k: int)
    requires
        0 <= k <= ns.len(),
        !(fields_conversion(ns.take(k)) is Done),
    ensures
        fields_conversion(ns) == fields_conversion(ns.take(k)),
    decreases ns.len() - k,
{
    if k < ns.len() {
        assert(ns.take(k + 1).drop_last() =~= ns.take(k));
        lemma_fields_prefix(ns, k + 1);
    } else {
        assert(ns.take(k) =~= ns);
    }
}

/// The first node of kind `kind` in `ns`.
fn find_first_of_kind<'a>(ns: &Vec<&'a SyntaxNode>, kind: &str) -> (res: Option<&'a SyntaxNode>)
    ensures
        match res {
            Some(n) => first_of_kind(derefs(ns@), kind@) == Some(*n),
            None => first_of_kind(derefs(ns@), kind@) is None,
        },
{
    let ghost all = derefs(ns@);
    let mut i: usize = 0;
    assert(all.skip(0) =~= all);
    while i < ns.len()
        invariant
            i <= ns.len(),
            all == derefs(ns@),
            first_of_kind(all, kind@) == first_of_kind(all.skip(i as int), kind@),
        decreases ns.len() - i,
    {
        assert(all.skip(i as int)[0] == *ns@[i as int]);
        assert(all.skip(i as int).drop_first() =~= all.skip(i + 1));
        if text_is(&ns[i].kind, kind) {
            return Some(ns[i]);
        }
        i = i + 1;
    }
    None
}

/// Reads the array part of a record body.
fn array_type(body: &SyntaxNode) -> (res: Conversion<Option<Type>>)
    ensures
        option_conversion_view(res) == array_type_conversion(*body),
{
    let named = body.named_children();
    match find_first_of_kind(&named, "record_array_type") {
        None => Conversion::Done(None),
        Some(a) => match a.named_child(0) {
            None => Conversion::Failed(TealError::EmptyRecordArrayType),
            Some(t) => match Type::convert(t) {
                Conversion::Done(ty) => Conversion::Done(Some(ty)),
                Conversion::Failed(e) => Conversion::Failed(e),
                Conversion::Aborts(k) => Conversion::Aborts(k),
            },
        },
    }
}

/// The model of an optional type that is read.
pub open spec fn option_conversion_view(c: Conversion<Option<Type>>) -> Outcome<Option<SpecType>> {
    match c {
        Conversion::Done(Some(t)) => Outcome::Done(Some(t@)),
        Conversion::Done(None) => Outcome::Done(None),
        Conversion::Failed(e) => Outcome::Failed(e@),
        Conversion::Aborts(k) => Outcome::Aborts(k@),
    }
}

/// What one child of a record body adds to the record's fields.
pub enum FieldRead {
    Entry(String, Type),
    Skipped,
    Aborts(String),
}

impl View for FieldRead {
    type V = FieldOutcome;

    open spec fn view(&self) -> FieldOutcome {
        match self {
            FieldRead::Entry(k, t) => FieldOutcome::Entry(k@, t@),
            FieldRead::Skipped => FieldOutcome::Skipped,
            FieldRead::Aborts(k) => FieldOutcome::Aborts(k@),
        }
    }
}

/// Reads what the child `f` of a record body adds to the record's fields.
fn field_entry(f: &SyntaxNode) -> (res: FieldRead)
    ensures
        res@ == field_outcome(*f),
{
    if !text_is(&f.kind, "field") {
        return FieldRead::Skipped;
    }
    let key = match f.child_by_field_name("key") {
        Some(k) => k,
        None => return FieldRead::Skipped,
    };
    let ty = match f.child_by_field_name("type") {
        Some(t) => t,
        None => return FieldRead::Skipped,
    };
    match Type::convert(ty) {
        Conversion::Done(t) => FieldRead::Entry(key.text.clone(), t),
        Conversion::Failed(_) => FieldRead::Skipped,
        Conversion::Aborts(k) => FieldRead::Aborts(k),
    }
}

/// Reads the fields that the children of a record body declare.
fn record_fields(body: &SyntaxNode) -> (res: Conversion<TypeMap>)
    ensures
        res@ == fields_conversion(named_nodes(body.children@)),
{
    let named = body.named_children();
    let ghost ns = derefs(named@);
    let mut fields = TypeMap::new();
    let mut i: usize = 0;
    assert(ns.take(0) =~= Seq::<SyntaxNode>::empty());
    while i < named.len()
        invariant
            i <= named.len(),
            ns == derefs(named@),
            ns == named_nodes(body.children@),
            fields_conversion(ns.take(i as int)) == Outcome::Done(fields@),
        decreases named.len() - i,
    {
        assert(ns.take(i + 1).drop_last() =~= ns.take(i as int));
        assert(ns.take(i + 1).last() == *named@[i as int]);
        match field_entry(named[i]) {
            FieldRead::Entry(k, t) => {
                fields.insert(k, t);
            },
            FieldRead::Skipped => {},
            FieldRead::Aborts(k) => {
                proof {
                    lemma_fields_prefix(ns, i + 1);
                }
                return Conversion::Aborts(k);
            },
        }
        i = i + 1;
    }
    assert(ns.take(i as int) =~= ns);
    Conversion::Done(fields)
}

impl Record {
    /// Reads the record that `node` declares, or the reason it declares none, or the
    /// kind of a node that reading does not support.
    pub fn convert(node: &SyntaxNode) -> (res: Conversion<Record>)
        ensures
            res@ == record_conversion(*node),
    {
        if !text_is(&node.kind, "record_declaration") {
            return Conversion::Failed(TealError::NotARecordDeclaration);
        }
        let name = match node.child_by_field_name("name") {
            Some(n) => n.text.clone(),
            None => return Conversion::Failed(TealError::MissingRecordName),
        };
        let type_args = match node.child_by_field_name("typeargs") {
            Some(t) => t.named_children_texts(),
            None => Vec::new(),
        };
        let body = match node.child_by_field_name("record_body") {
            Some(b) => b,
            None => return Conversion::Failed(TealError::MissingRecordBody),
        };
        let array_type = match array_type(body) {
            Conversion::Done(a) => a,
            Conversion::Failed(e) => return Conversion::Failed(e),
            Conversion::Aborts(k) => return Conversion::Aborts(k),
        };
        let fields = match record_fields(body) {
            Conversion::Done(f) => f,
            Conversion::Failed(e) => {
                proof {
                    lemma_fields_never_fail(named_nodes(body.children@));
                }
                return Conversion::Failed(e);
            },
            Conversion::Aborts(k) => return Conversion::Aborts(k),
        };
        let record = Record {
            name,
            type_args,
            array_type,
            record_defs: Vec::new(),
            enum_defs: Vec::new(),
            type_defs: TypeMap::new(),
            fields,
        };
        assert(record@.type_args =~= field_texts(*node, "typeargs"@));
        assert(record@.record_defs =~= Seq::<SpecRecord>::empty());
        assert(record@.enum_defs =~= Seq::<SpecEnum>::empty());
        Conversion::Done(record)
    }

    /// Reads the record that `node` declares, or the reason it declares none.
    pub fn try_from(node: &SyntaxNode) -> (res: Result<Record, TealError>)
        requires
            !(record_conversion(*node) is Aborts),
        ensures
            outcome_of(res) == record_conversion(*node),
    {
        match Record::convert(node) {
            Conversion::Done(r) => Ok(r),
            Conversion::Failed(e) => Err(e),
            Conversion::Aborts(_) => {
                assert(false);
                Err(TealError::NotARecordDeclaration)
            },
        }
    }
}

/// The record declarations among `ns`, in order.
pub open spec fn record_declarations(ns: Seq<SyntaxNode>) -> Seq<SyntaxNode>
    decreases ns.len(),
{
    if ns.len() == 0 {
        Seq::empty()
    } else if ns.last().kind@ == "record_declaration"@ {
        record_declarations(ns.drop_last()).push(ns.last())
    } else {
        record_declarations(ns.drop_last())
    }
}

/// The record declarations among the named children of `root`, in order.
pub fn record_declaration_nodes(root: &SyntaxNode) -> (res: Vec<&SyntaxNode>)
    ensures
        derefs(res@) == record_declarations(named_nodes(root.children@)),
{
    let named = root.named_children();
    let ghost ns = derefs(named@);
    let mut out: Vec<&SyntaxNode> = Vec::new();
    let mut i: usize = 0;
    assert(ns.take(0) =~= Seq::<SyntaxNode>::empty());
    while i < named.len()
        invariant
            i <= named.len(),
            ns == derefs(named@),
            derefs(out@) == record_declarations(ns.take(i as int)),
        decreases named.len() - i,
    {
        assert(ns.take(i + 1).drop_last() =~= ns.take(i as int));
        assert(ns.take(i + 1).last() == *named@[i as int]);
        if text_is(&named[i].kind, "record_declaration") {
            let ghost before = out@;
            out.push(named[i]);
            assert(derefs(out@) =~= derefs(before).push(*named@[i as int]));
        }
        i = i + 1;
    }
    assert(ns.take(i as int) =~= ns);
    out
}

// ---------------------------------------------------------------------------
// Laws

/// No member of a union, once flattened, is itself a union.
pub proof fn law_union_members_are_not_unions(n: SyntaxNode)
    ensures
        forall|i: int|
            0 <= i < flatten_union(n).len() ==> (#[trigger] flatten_union(n)[i]).kind@
                != "type_union"@,
{
    lemma_flatten_children_no_union(n.children@);
}

/// Whether `whole` stops for the same reason as `part`, which does not read.
pub open spec fn stops_as<A, B>(whole: Outcome<A>, part: Outcome<B>) -> bool {
    match part {
        Outcome::Done(_) => false,
        Outcome::Failed(e) => whole == Outcome::<A>::Failed(e),
        Outcome::Aborts(k) => whole == Outcome::<A>::Aborts(k),
    }
}

/// The members of a union read left to right: when all of them read, the union reads
/// as the tuple of their types, one per member and in order; otherwise the union reads
/// as the first member that does not, all members before it having read.
pub proof fn law_members_read_in_order(ms: Seq<SyntaxNode>)
    ensures
        members_conversion(ms) matches Outcome::Done(ts) ==> {
            &&& ts.len() == ms.len()
            &&& forall|i: int|
                0 <= i < ms.len() ==> member_conversion(#[trigger] ms[i]) == Outcome::Done(ts[i])
        },
        !(members_conversion(ms) is Done) ==> exists|i: int|
            0 <= i < ms.len() && stops_as(members_conversion(ms), member_conversion(ms[i]))
                && members_conversion(ms.take(i)) is Done,
    decreases ms.len(),
{
    if ms.len() > 0 {
        let init = ms.drop_last();
        law_members_read_in_order(init);
        match members_conversion(init) {
            Outcome::Done(prev) => {
                assert(ms.take(ms.len() - 1) =~= init);
                assert forall|i: int| 0 <= i < init.len() implies ms[i] == init[i] by {}
            },
            _ => {
                let i = choose|i: int|
                    0 <= i < init.len() && stops_as(members_conversion(init), member_conversion(init[i]))
                        && members_conversion(init.take(i)) is Done;
                assert(init.take(i) =~= ms.take(i));
                assert(init[i] == ms[i]);
            },
        }
    }
}

/// A union reads as the tuple of its flattened members' types, one per member.
pub proof fn law_union_reads_as_tuple_of_members(n: SyntaxNode)
    requires
        n.kind@ == "type_union"@,
        type_conversion(n) is Done,
    ensures
        type_conversion(n)->Done_0 matches SpecType::Tuple(ts) && ts.len() == flatten_union(
            n,
        ).len() && forall|i: int|
            0 <= i < ts.len() ==> member_conversion(#[trigger] flatten_union(n)[i])
                == Outcome::Done(ts[i]),
{
    law_members_read_in_order(flatten_union(n));
}

/// Whether reading `o` declares a field named `k`.
pub open spec fn declares(o: FieldOutcome, k: Seq<char>) -> bool {
    o matches FieldOutcome::Entry(k2, _) && k2 == k
}

/// A record has a field of a given name exactly when some child of its body declares
/// one whose type reads, and its type is the one that the last such child declares.
pub proof fn law_field_is_last_declaration(ns: Seq<SyntaxNode>, k: Seq<char>)
    requires
        fields_conversion(ns) is Done,
    ensures
        ({
            let m = fields_conversion(ns)->Done_0;
            &&& m.contains_key(k) <==> exists|i: int|
                0 <= i < ns.len() && declares(#[trigger] field_outcome(ns[i]), k)
            &&& m.contains_key(k) ==> exists|i: int|
                0 <= i < ns.len() && #[trigger] field_outcome(ns[i]) == FieldOutcome::Entry(k, m[k])
                    && forall|j: int| i < j < ns.len() ==> !declares(#[trigger] field_outcome(ns[j]), k)
        }),
    decreases ns.len(),
{
    if ns.len() > 0 {
        let init = ns.drop_last();
        let last = ns.len() - 1;
        assert(fields_conversion(init) is Done);
        law_field_is_last_declaration(init, k);
        let m0 = fields_conversion(init)->Done_0;
        let m = fields_conversion(ns)->Done_0;
        assert forall|i: int| 0 <= i < init.len() implies init[i] == ns[i] by {}
        if declares(field_outcome(ns[last]), k) {
            assert(field_outcome(ns[last]) == FieldOutcome::Entry(k, m[k]));
        } else {
            assert(m.contains_key(k) == m0.contains_key(k));
            if m0.contains_key(k) {
                assert(m[k] == m0[k]);
                let i = choose|i: int|
                    0 <= i < init.len() && #[trigger] field_outcome(init[i]) == FieldOutcome::Entry(
                        k,
                        m0[k],
                    ) && forall|j: int|
                        i < j < init.len() ==> !declares(#[trigger] field_outcome(init[j]), k);
                assert(field_outcome(ns[i]) == FieldOutcome::Entry(k, m[k]));
                assert forall|j: int| i < j < ns.len() implies !declares(
                    #[trigger] field_outcome(ns[j]),
                    k,
                ) by {
                    if j < last {
                        assert(ns[j] == init[j]);
                    }
                }
            }
            if exists|i: int| 0 <= i < ns.len() && declares(#[trigger] field_outcome(ns[i]), k) {
                let i = choose|i: int| 0 <= i < ns.len() && declares(#[trigger] field_outcome(ns[i]), k);
                assert(i < last);
                assert(declares(field_outcome(init[i]), k));
            }
        }
    }
}

/// A record that reads carries as type parameters the texts of all the named children
/// of its `typeargs` child, each in its place; none when it has no such child.
pub proof fn law_record_type_args_are_all_parameters(n: SyntaxNode)
    requires
        record_conversion(n) is Done,
    ensures
        ({
            let r = record_conversion(n)->Done_0;
            match field_child(n.children@, "typeargs"@) {
                Some(t) => {
                    &&& r.type_args.len() == named_nodes(t.children@).len()
                    &&& forall|i: int|
                        0 <= i < r.type_args.len() ==> r.type_args[i] == (#[trigger] named_nodes(
                            t.children@,
                        )[i]).text@
                },
                None => r.type_args.len() == 0,
            }
        }),
{
}

/// A function type carries as type parameters the texts of all the named children of
/// its `type_args` child, each in its place; none when it has no such child.
pub proof fn law_function_type_args_are_all_parameters(n: SyntaxNode)
    requires
        n.kind@ == "function_type"@,
    ensures
        type_conversion(n) matches Outcome::Done(SpecType::Function(f)) && match field_child(
            n.children@,
            "type_args"@,
        ) {
            Some(t) => {
                &&& f.type_args.len() == named_nodes(t.children@).len()
                &&& forall|i: int|
                    0 <= i < f.type_args.len() ==> f.type_args[i] == (#[trigger] named_nodes(
                        t.children@,
                    )[i]).text@
            },
            None => f.type_args.len() == 0,
        },
{
    reveal_strlit("function_type");
    reveal_strlit("type_union");
    reveal_strlit("simple_type");
    assert("function_type"@.len() == 13 && "type_union"@.len() == 10 && "simple_type"@.len() == 11);
    assert(n.kind@ != "type_union"@);
    assert(n.kind@ != "simple_type"@);
}

/// Whether `m` is a member of the union spelled by the children `cs`: a named child that is
/// no union, or a member of a union among the named children.
pub open spec fn is_union_member_of_children(cs: Seq<SyntaxChild>, m: SyntaxNode) -> bool {
    exists|i: int|
        0 <= i < cs.len() && cs[i].named && if cs[i].node.kind@ == "type_union"@ {
            flatten_children(cs[i].node.children@).contains(m)
        } else {
            cs[i].node == m
        }
}

/// The members of a flattened union are exactly its named children that are no union,
/// together with all the members of the unions among its named children, at any depth.
pub proof fn law_union_members_are_nested_leaves(cs: Seq<SyntaxChild>, m: SyntaxNode)
    ensures
        flatten_children(cs).contains(m) <==> is_union_member_of_children(cs, m),
    decreases cs.len(),
{
    if cs.len() > 0 {
        let init = cs.drop_last();
        let c = cs.last();
        let last = cs.len() - 1;
        let rest = flatten_children(init);
        law_union_members_are_nested_leaves(init, m);
        let whole = flatten_children(cs);
        if c.named && c.node.kind@ == "type_union"@ {
            let inner = flatten_children(c.node.children@);
            assert(whole == rest + inner);
            if whole.contains(m) {
                let j = choose|j: int| 0 <= j < whole.len() && whole[j] == m;
                if j < rest.len() {
                    assert(rest[j] == m);
                    let i = choose|i: int|
                        0 <= i < init.len() && init[i].named && if init[i].node.kind@
                            == "type_union"@ {
                            flatten_children(init[i].node.children@).contains(m)
                        } else {
                            init[i].node == m
                        };
                    assert(cs[i] == init[i]);
                } else {
                    assert(inner[j - rest.len()] == m);
                    assert(inner.contains(m));
                }
            }
            if is_union_member_of_children(cs, m) {
                let i = choose|i: int|
                    0 <= i < cs.len() && cs[i].named && if cs[i].node.kind@ == "type_union"@ {
                        flatten_children(cs[i].node.children@).contains(m)
                    } else {
                        cs[i].node == m
                    };
                if i < last {
                    assert(init[i] == cs[i]);
                    assert(is_union_member_of_children(init, m));
                    let j = choose|j: int| 0 <= j < rest.len() && rest[j] == m;
                    assert(whole[j] == m);
                } else {
                    let j = choose|j: int| 0 <= j < inner.len() && inner[j] == m;
                    assert(whole[rest.len() + j] == m);
                }
            }
        } else if c.named {
            assert(whole == rest.push(c.node));
            if whole.contains(m) {
                let j = choose|j: int| 0 <= j < whole.len() && whole[j] == m;
                if j < rest.len() {
                    assert(rest[j] == m);
                    let i = choose|i: int|
                        0 <= i < init.len() && init[i].named && if init[i].node.kind@
                            == "type_union"@ {
                            flatten_children(init[i].node.children@).contains(m)
                        } else {
                            init[i].node == m
                        };
                    assert(cs[i] == init[i]);
                } else {
                    assert(cs[last].node == m);
                }
            }
            if is_union_member_of_children(cs, m) {
                let i = choose|i: int|
                    0 <= i < cs.len() && cs[i].named && if cs[i].node.kind@ == "type_union"@ {
                        flatten_children(cs[i].node.children@).contains(m)
                    } else {
                        cs[i].node == m
                    };
                if i < last {
                    assert(init[i] == cs[i]);
                    assert(is_union_member_of_children(init, m));
                    let j = choose|j: int| 0 <= j < rest.len() && rest[j] == m;
                    assert(whole[j] == m);
                } else {
                    assert(whole[rest.len() as int] == m);
                }
            }
        } else {
            assert(whole == rest);
            if whole.contains(m) {
                let i = choose|i: int|
                    0 <= i < init.len() && init[i].named && if init[i].node.kind@
                        == "type_union"@ {
                        flatten_children(init[i].node.children@).contains(m)
                    } else {
                        init[i].node == m
                    };
                assert(cs[i] == init[i]);
            }
            if is_union_member_of_children(cs, m) {
                let i = choose|i: int|
                    0 <= i < cs.len() && cs[i].named && if cs[i].node.kind@ == "type_union"@ {
                        flatten_children(cs[i].node.children@).contains(m)
                    } else {
                        cs[i].node == m
                    };
                assert(i < last);
                assert(init[i] == cs[i]);
                assert(is_union_member_of_children(init, m));
            }
        }
    }
}

/// Whether `n` is a record declaration.
pub open spec fn is_record_declaration(n: SyntaxNode) -> bool {
    n.kind@ == "record_declaration"@
}

/// The record declarations found among nodes are exactly those nodes that are record
/// declarations, each one wherever it stands, in order: the nodes filtered by their kind.
pub proof fn law_record_declarations_are_all_declarations(ns: Seq<SyntaxNode>)
    ensures
        record_declarations(ns) == ns.filter(|n: SyntaxNode| is_record_declaration(n)),
        forall|m: SyntaxNode|
            record_declarations(ns).contains(m) <==> ns.contains(m) && is_record_declaration(m),
    decreases ns.len(),
{
    reveal(Seq::filter);
    if ns.len() > 0 {
        let init = ns.drop_last();
        law_record_declarations_are_all_declarations(init);
        let r = record_declarations(ns);
        let r0 = record_declarations(init);
        assert forall|m: SyntaxNode|
            r.contains(m) <==> ns.contains(m) && is_record_declaration(m) by {
            if r.contains(m) {
                let j = choose|j: int| 0 <= j < r.len() && r[j] == m;
                if j < r0.len() {
                    assert(r0[j] == m);
                    assert(r0.contains(m));
                    let k = choose|k: int| 0 <= k < init.len() && init[k] == m;
                    assert(ns[k] == m);
                } else {
                    assert(m == ns.last());
                    assert(ns[ns.len() - 1] == m);
                }
            }
            if ns.contains(m) && is_record_declaration(m) {
                let k = choose|k: int| 0 <= k < ns.len() && ns[k] == m;
                if k < ns.len() - 1 {
                    assert(init[k] == m);
                    assert(init.contains(m));
                    let j = choose|j: int| 0 <= j < r0.len() && r0[j] == m;
                    assert(r[j] == m);
                } else {
                    assert(r[r.len() - 1] == m);
                }
            }
        }
    }
}

} // verus!
