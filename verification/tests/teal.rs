use teal_typegen::syntax::{SyntaxChild, SyntaxNode};
use teal_typegen::teal::{
    flatten_type_union, record_declaration_nodes, unsupported_kind_message, Conversion, TealError,
};
use teal_typegen::type_map::TypeMap;
use teal_typegen::types::{Record, Type};

fn node(kind: &str, text: &str, children: Vec<SyntaxChild>) -> SyntaxNode {
    SyntaxNode { kind: kind.to_string(), text: text.to_string(), children }
}

fn named(n: SyntaxNode) -> SyntaxChild {
    SyntaxChild { field: None, named: true, node: n }
}

fn field(name: &str, n: SyntaxNode) -> SyntaxChild {
    SyntaxChild { field: Some(name.to_string()), named: true, node: n }
}

fn punct(text: &str) -> SyntaxChild {
    SyntaxChild { field: None, named: false, node: node(text, text, Vec::new()) }
}

fn simple(name: &str) -> SyntaxNode {
    node("simple_type", name, Vec::new())
}

fn union(members: Vec<SyntaxNode>) -> SyntaxNode {
    let mut children = Vec::new();
    for (i, m) in members.into_iter().enumerate() {
        if i > 0 {
            children.push(punct("|"));
        }
        children.push(named(m));
    }
    node("type_union", "", children)
}

fn is_simple(t: &Type, name: &str) -> bool {
    match (t, name) {
        (Type::Any, "any") => true,
        (Type::Integer, "integer") => true,
        (Type::Number, "number") => true,
        (Type::Nil, "nil") => true,
        (Type::Boolean, "boolean") => true,
        (Type::String, "string") => true,
        _ => false,
    }
}

#[test]
fn simple_types_read_by_name() {
    for name in ["any", "integer", "number", "nil", "boolean", "string"] {
        let t = Type::try_from(&simple(name)).unwrap();
        assert!(is_simple(&t, name), "{name}");
    }
}

#[test]
fn unknown_simple_type_is_an_error() {
    match Type::try_from(&simple("float")) {
        Err(e) => {
            assert!(matches!(&e, TealError::InvalidType(s) if s == "float"));
            assert_eq!(e.message(), "float is not a valid type");
        }
        Ok(t) => panic!("read {t:?}"),
    }
}

#[test]
fn nested_unions_flatten_in_order() {
    let inner = union(vec![simple("nil"), simple("boolean")]);
    let outer = union(vec![simple("string"), inner, simple("integer")]);
    let members = flatten_type_union(&outer);
    let texts: Vec<&str> = members.iter().map(|n| n.text.as_str()).collect();
    assert_eq!(texts, vec!["string", "nil", "boolean", "integer"]);
    assert!(members.iter().all(|n| n.kind != "type_union"));
}

#[test]
fn union_reads_as_tuple_of_members() {
    let inner = union(vec![simple("nil"), simple("boolean")]);
    let outer = union(vec![simple("string"), inner, simple("integer")]);
    match Type::try_from(&outer).unwrap() {
        Type::Tuple(ts) => {
            assert_eq!(ts.len(), 4);
            assert!(is_simple(&ts[0], "string"));
            assert!(is_simple(&ts[1], "nil"));
            assert!(is_simple(&ts[2], "boolean"));
            assert!(is_simple(&ts[3], "integer"));
        }
        t => panic!("read {t:?}"),
    }
}

#[test]
fn union_stops_at_first_bad_member() {
    let u = union(vec![simple("string"), simple("bogus"), node("table_type", "{string}", Vec::new())]);
    match Type::convert(&u) {
        Conversion::Failed(e) => assert_eq!(e.message(), "bogus is not a valid type"),
        other => panic!("read {other:?}"),
    }
    let u = union(vec![simple("string"), node("table_type", "{string}", Vec::new()), simple("bogus")]);
    match Type::convert(&u) {
        Conversion::Aborts(k) => assert_eq!(k, "table_type"),
        other => panic!("read {other:?}"),
    }
}

#[test]
fn function_type_reads_its_type_arguments() {
    let args = node(
        "typeargs",
        "<K, V>",
        vec![punct("<"), named(node("identifier", "K", vec![])), punct(","), named(node("identifier", "V", vec![])), punct(">")],
    );
    let f = node("function_type", "function<K, V>()", vec![punct("function"), field("type_args", args)]);
    match Type::try_from(&f).unwrap() {
        Type::Function(func) => {
            assert_eq!(func.type_args, vec!["K".to_string(), "V".to_string()]);
            assert!(func.parameter_types.is_empty());
            assert!(func.return_types.is_empty());
        }
        t => panic!("read {t:?}"),
    }
    let bare = node("function_type", "function()", vec![punct("function")]);
    match Type::try_from(&bare).unwrap() {
        Type::Function(func) => assert!(func.type_args.is_empty()),
        t => panic!("read {t:?}"),
    }
}

#[test]
fn unsupported_kinds_abort_with_their_message() {
    match Type::convert(&node("table_type", "{string}", vec![])) {
        Conversion::Aborts(k) => {
            assert_eq!(unsupported_kind_message(&k), "not yet implemented: table_type not handled yet...")
        }
        other => panic!("read {other:?}"),
    }
    match Type::convert(&node("identifier", "Foo", vec![])) {
        Conversion::Aborts(k) => assert_eq!(
            unsupported_kind_message(&k),
            "internal error: entered unreachable code: identifier is not a valid kind for a type node"
        ),
        other => panic!("read {other:?}"),
    }
}

fn record_field(key: &str, ty: SyntaxNode) -> SyntaxChild {
    named(node(
        "field",
        "",
        vec![field("key", node("identifier", key, vec![])), punct(":"), field("type", ty)],
    ))
}

fn record(name: &str, typeargs: Option<Vec<&str>>, body: Vec<SyntaxChild>) -> SyntaxNode {
    let mut children = vec![punct("record"), field("name", node("identifier", name, vec![]))];
    if let Some(args) = typeargs {
        let args = args.into_iter().map(|a| named(node("identifier", a, vec![]))).collect();
        children.push(field("typeargs", node("typeargs", "", args)));
    }
    children.push(field("record_body", node("record_body", "", body)));
    children.push(punct("end"));
    node("record_declaration", "", children)
}

#[test]
fn record_reads_name_type_args_and_fields() {
    let r = record(
        "Point",
        Some(vec!["T"]),
        vec![
            record_field("x", simple("number")),
            record_field("y", simple("number")),
            record_field("label", union(vec![simple("string"), simple("nil")])),
        ],
    );
    let rec = Record::try_from(&r).unwrap();
    assert_eq!(rec.name, "Point");
    assert_eq!(rec.type_args, vec!["T".to_string()]);
    assert!(rec.array_type.is_none());
    assert!(rec.record_defs.is_empty() && rec.enum_defs.is_empty());
    assert_eq!(rec.type_defs.len(), 0);
    assert_eq!(rec.fields.len(), 3);
    assert_eq!(rec.fields.keys(), vec!["x".to_string(), "y".to_string(), "label".to_string()]);
    assert!(matches!(rec.fields.get("x"), Some(Type::Number)));
    assert!(matches!(rec.fields.get("label"), Some(Type::Tuple(ts)) if ts.len() == 2));
    assert!(rec.fields.get("z").is_none());
}

#[test]
fn later_field_of_same_name_wins_and_bad_fields_are_skipped() {
    let r = record(
        "R",
        None,
        vec![
            record_field("a", simple("number")),
            record_field("b", simple("nonsense")),
            record_field("a", simple("string")),
            named(node("field", "", vec![field("key", node("identifier", "c", vec![]))])),
            named(node("comment", "-- c", vec![])),
        ],
    );
    let rec = Record::try_from(&r).unwrap();
    assert_eq!(rec.fields.len(), 1);
    assert!(matches!(rec.fields.get("a"), Some(Type::String)));
    assert!(rec.fields.get("b").is_none());
    assert!(rec.fields.get("c").is_none());
}

#[test]
fn record_array_part() {
    let arr = named(node("record_array_type", "{number}", vec![punct("{"), named(simple("number")), punct("}")]));
    let rec = Record::try_from(&record("Arr", None, vec![arr])).unwrap();
    assert!(matches!(rec.array_type, Some(Type::Number)));

    let empty = named(node("record_array_type", "{}", vec![punct("{"), punct("}")]));
    let e = Record::try_from(&record("Arr", None, vec![empty])).unwrap_err();
    assert!(matches!(e, TealError::EmptyRecordArrayType));
    assert_eq!(e.message(), "no named child on record_array_type");

    let bad = named(node("record_array_type", "{x}", vec![named(simple("x"))]));
    let e = Record::try_from(&record("Arr", None, vec![bad])).unwrap_err();
    assert_eq!(e.message(), "x is not a valid type");
}

#[test]
fn record_errors() {
    let e = Record::try_from(&simple("number")).unwrap_err();
    assert!(matches!(e, TealError::NotARecordDeclaration));
    assert_eq!(e.message(), "test");

    let no_name = node("record_declaration", "", vec![field("record_body", node("record_body", "", vec![]))]);
    let e = Record::try_from(&no_name).unwrap_err();
    assert_eq!(e.message(), "No record name");

    let no_body = node("record_declaration", "", vec![field("name", node("identifier", "R", vec![]))]);
    let e = Record::try_from(&no_body).unwrap_err();
    assert_eq!(e.message(), "No record body");
}

#[test]
fn record_with_table_field_aborts() {
    let r = record("T", None, vec![record_field("m", node("table_type", "{string:number}", vec![]))]);
    match Record::convert(&r) {
        Conversion::Aborts(k) => assert_eq!(k, "table_type"),
        other => panic!("read {other:?}"),
    }
}

#[test]
fn record_declarations_are_found_in_order() {
    let root = node(
        "program",
        "",
        vec![
            named(record("A", None, vec![])),
            named(node("comment", "-- x", vec![])),
            punct(";"),
            named(record("B", None, vec![])),
        ],
    );
    let decls = record_declaration_nodes(&root);
    assert_eq!(decls.len(), 2);
    let names: Vec<String> = decls.iter().map(|d| Record::try_from(d).unwrap().name).collect();
    assert_eq!(names, vec!["A".to_string(), "B".to_string()]);
}

#[test]
fn child_lookup_by_field_and_position() {
    let n = node(
        "x",
        "",
        vec![punct("("), field("a", simple("nil")), named(simple("any")), field("a", simple("string"))],
    );
    assert_eq!(n.child_by_field_name("a").unwrap().text, "nil");
    assert!(n.child_by_field_name("b").is_none());
    assert_eq!(n.named_child(1).unwrap().text, "any");
    assert!(n.named_child(3).is_none());
    assert_eq!(n.named_children_texts(), vec!["nil".to_string(), "any".to_string(), "string".to_string()]);
}

#[test]
fn type_map_read_after_insert() {
    let mut m = TypeMap::new();
    assert_eq!(m.len(), 0);
    m.insert("a".to_string(), Type::Nil);
    m.insert("b".to_string(), Type::Any);
    m.insert("a".to_string(), Type::Boolean);
    assert_eq!(m.len(), 2);
    assert!(matches!(m.get("a"), Some(Type::Boolean)));
    assert!(matches!(m.get("b"), Some(Type::Any)));
    assert!(m.get("c").is_none());
    assert_eq!(m.keys(), vec!["a".to_string(), "b".to_string()]);
}
