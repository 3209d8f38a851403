use json2rdf::{
    convert_documents, convert_value, current_subject, datatype_iri, map_literal, resolve_property, Datatype,
    JsonNumber, JsonValue, DEFAULT_NAMESPACE,
};
use oxrdf::vocab::xsd;
use oxrdf::{BlankNode, Graph, Literal, NamedNode, NamedNodeRef, TripleRef};

const NS: &str = "http://example.com/ns";

fn obj(members: Vec<(&str, JsonValue)>) -> JsonValue {
    JsonValue::Object(members.into_iter().map(|(k, v)| (k.to_string(), v)).collect())
}

fn text(s: &str) -> JsonValue {
    JsonValue::String(s.to_string())
}

fn integer(i: i64) -> JsonValue {
    JsonValue::Number(JsonNumber::Integer(i))
}

fn float(s: &str) -> JsonValue {
    JsonValue::Number(JsonNumber::Float(s.to_string()))
}

fn pred(key: &str) -> NamedNode {
    NamedNode::new(format!("{}/{}", NS, key)).unwrap()
}

fn blank(id: u128) -> BlankNode {
    BlankNode::new_from_unique_id(id)
}

fn has_literal(g: &Graph, s: u128, key: &str, lexical: &str, dt: NamedNodeRef) -> bool {
    let p = pred(key);
    let l = Literal::new_typed_literal(lexical, dt);
    g.contains(TripleRef::new(&blank(s), &p, &l))
}

fn has_link(g: &Graph, s: u128, key: &str, o: u128) -> bool {
    let p = pred(key);
    g.contains(TripleRef::new(&blank(s), &p, &blank(o)))
}

fn convert_one(doc: JsonValue) -> Graph {
    convert_documents(&vec![Some(doc)], &Some(NS.to_string())).unwrap()
}

#[test]
fn array_elements_share_subject_and_predicate() {
    let g = convert_one(obj(vec![("a", JsonValue::Array(vec![integer(1), integer(2), integer(3)]))]));
    assert_eq!(g.len(), 3);
    for lex in ["1", "2", "3"] {
        assert!(has_literal(&g, 0, "a", lex, xsd::INTEGER));
    }
}

#[test]
fn nested_object_is_linked_to_its_parent() {
    let g = convert_one(obj(vec![("a", obj(vec![("b", integer(1))]))]));
    assert_eq!(g.len(), 2);
    assert!(has_link(&g, 0, "a", 1));
    assert!(has_literal(&g, 1, "b", "1", xsd::INTEGER));
}

#[test]
fn literals_are_typed_by_json_kind() {
    let b = map_literal(&JsonValue::Bool(true)).unwrap();
    assert_eq!(b.lexical, "true");
    assert!(b.datatype == Datatype::Boolean);
    let i = map_literal(&integer(42)).unwrap();
    assert_eq!(i.lexical, "42");
    assert!(i.datatype == Datatype::Integer);
    let f = map_literal(&float("3.5")).unwrap();
    assert_eq!(f.lexical, "3.5");
    assert!(f.datatype == Datatype::Double);
    let s = map_literal(&text("x y")).unwrap();
    assert_eq!(s.lexical, "x y");
    assert!(s.datatype == Datatype::Str);
    let n = map_literal(&integer(-9007)).unwrap();
    assert_eq!(n.lexical, "-9007");
    let m = map_literal(&integer(i64::MIN)).unwrap();
    assert_eq!(m.lexical, "-9223372036854775808");
}

#[test]
fn values_without_literal() {
    assert!(map_literal(&JsonValue::Null).is_none());
    assert!(map_literal(&JsonValue::Number(JsonNumber::Unrepresentable)).is_none());
    assert!(map_literal(&JsonValue::Array(vec![])).is_none());
    assert!(map_literal(&obj(vec![])).is_none());
}

#[test]
fn literal_triples_carry_datatypes() {
    let g = convert_one(obj(vec![
        ("t", JsonValue::Bool(true)),
        ("n", integer(42)),
        ("f", float("3.5")),
        ("s", text("hello")),
    ]));
    assert_eq!(g.len(), 4);
    assert!(has_literal(&g, 0, "t", "true", xsd::BOOLEAN));
    assert!(has_literal(&g, 0, "n", "42", xsd::INTEGER));
    assert!(has_literal(&g, 0, "f", "3.5", xsd::DOUBLE));
    assert!(has_literal(&g, 0, "s", "hello", xsd::STRING));
    assert!(!has_literal(&g, 0, "f", "3.5", xsd::INTEGER));
}

#[test]
fn datatype_iris() {
    assert_eq!(datatype_iri(Datatype::Boolean), xsd::BOOLEAN.as_str());
    assert_eq!(datatype_iri(Datatype::Integer), xsd::INTEGER.as_str());
    assert_eq!(datatype_iri(Datatype::Double), xsd::DOUBLE.as_str());
    assert_eq!(datatype_iri(Datatype::Str), xsd::STRING.as_str());
}

#[test]
fn property_joins_namespace_and_key() {
    assert_eq!(resolve_property("http://example.com/ns", "name"), "http://example.com/ns/name");
    assert_eq!(resolve_property("", ""), "/");
}

#[test]
fn nested_keys_use_the_same_namespace() {
    let g = convert_one(obj(vec![("a", obj(vec![("a", text("x"))]))]));
    assert!(has_link(&g, 0, "a", 1));
    assert!(has_literal(&g, 1, "a", "x", xsd::STRING));
}

#[test]
fn null_gives_no_triple() {
    let g = convert_one(obj(vec![
        ("a", JsonValue::Null),
        ("b", JsonValue::Array(vec![JsonValue::Null, JsonValue::Null])),
        ("c", obj(vec![("d", JsonValue::Null)])),
    ]));
    assert_eq!(g.len(), 1);
    assert!(has_link(&g, 0, "c", 1));
}

#[test]
fn unrepresentable_number_is_skipped() {
    let g = convert_one(obj(vec![
        ("a", JsonValue::Number(JsonNumber::Unrepresentable)),
        ("b", integer(7)),
    ]));
    assert_eq!(g.len(), 1);
    assert!(has_literal(&g, 0, "b", "7", xsd::INTEGER));
}

#[test]
fn key_that_is_no_iri_is_skipped() {
    let g = convert_one(obj(vec![("bad key", integer(1)), ("good", integer(2))]));
    assert_eq!(g.len(), 1);
    assert!(has_literal(&g, 0, "good", "2", xsd::INTEGER));
}

#[test]
fn one_triple_per_edge() {
    // three scalars, one nested object with two scalars, one array of two
    // objects with one scalar each: 3 + (1 + 2) + 2 * (1 + 1) = 10
    let g = convert_one(obj(vec![
        ("a", integer(1)),
        ("b", text("b")),
        ("c", JsonValue::Bool(false)),
        ("d", obj(vec![("e", integer(2)), ("f", integer(3))])),
        ("g", JsonValue::Array(vec![obj(vec![("h", integer(4))]), obj(vec![("h", integer(4))])])),
    ]));
    assert_eq!(g.len(), 10);
    assert!(has_link(&g, 0, "g", 2));
    assert!(has_link(&g, 0, "g", 3));
    assert!(has_literal(&g, 2, "h", "4", xsd::INTEGER));
    assert!(has_literal(&g, 3, "h", "4", xsd::INTEGER));
}

#[test]
fn equal_scalars_in_an_array_give_one_triple() {
    let g = convert_one(obj(vec![("a", JsonValue::Array(vec![integer(1), integer(1)]))]));
    assert_eq!(g.len(), 1);
}

#[test]
fn converting_twice_into_one_graph_changes_nothing() {
    let doc = obj(vec![("a", obj(vec![("b", integer(1))])), ("c", text("x"))]);
    let once = convert_one(obj(vec![("a", obj(vec![("b", integer(1))])), ("c", text("x"))]));
    let mut graph = Graph::new();
    let mut stack: Vec<u128> = Vec::new();
    let mut next: u128 = 0;
    convert_value(&doc, &mut stack, &None, NS, &mut next, &mut graph);
    assert_eq!(next, 2);
    assert!(stack.is_empty());
    let mut again: u128 = 0;
    convert_value(&doc, &mut stack, &None, NS, &mut again, &mut graph);
    assert_eq!(again, 2);
    assert_eq!(graph.len(), 3);
    assert_eq!(once.len(), 3);
    for g in [&graph, &once] {
        assert!(has_link(g, 0, "a", 1));
        assert!(has_literal(g, 1, "b", "1", xsd::INTEGER));
        assert!(has_literal(g, 0, "c", "x", xsd::STRING));
    }
}

#[test]
fn value_under_an_open_subject() {
    let mut graph = Graph::new();
    let mut stack: Vec<u128> = vec![7, 9];
    let mut next: u128 = 20;
    let prop = Some(format!("{}/k", NS));
    let v = JsonValue::Array(vec![integer(5), obj(vec![("m", JsonValue::Bool(false))])]);
    convert_value(&v, &mut stack, &prop, NS, &mut next, &mut graph);
    assert_eq!(stack, vec![7, 9]);
    assert_eq!(next, 21);
    assert_eq!(graph.len(), 3);
    assert!(has_literal(&graph, 9, "k", "5", xsd::INTEGER));
    assert!(has_link(&graph, 9, "k", 20));
    assert!(has_literal(&graph, 20, "m", "false", xsd::BOOLEAN));
    assert_eq!(current_subject(&stack), Some(9));
    assert_eq!(current_subject(&vec![]), None);
}

fn sample_document() -> JsonValue {
    let engine = || obj(vec![("maker", text("GE")), ("thrust", float("115300.5"))]);
    obj(vec![
        ("flight", text("BA117")),
        (
            "aircraft",
            obj(vec![
                ("model", text("Boeing 777")),
                ("manufacturer", text("Boeing")),
                ("capacity", integer(336)),
                ("engines", JsonValue::Array(vec![engine(), engine()])),
                ("in_service", JsonValue::Bool(true)),
            ]),
        ),
        ("route", obj(vec![("from", text("LHR")), ("to", text("JFK")), ("distance_km", integer(5555))])),
        ("crew", JsonValue::Array(vec![text("Ana"), text("Ben"), text("Chloe")])),
        ("cancelled", JsonValue::Bool(false)),
        ("notes", JsonValue::Null),
        ("legs", JsonValue::Array(vec![obj(vec![("seq", integer(1)), ("ok", JsonValue::Bool(true))])])),
    ])
}

#[test]
fn sample_document_gives_23_triples() {
    let g = convert_documents(&vec![Some(sample_document())], &None).unwrap();
    assert_eq!(g.len(), 23);
    let p = NamedNode::new(format!("{}/flight", DEFAULT_NAMESPACE)).unwrap();
    let l = Literal::new_typed_literal("BA117", xsd::STRING);
    assert!(g.contains(TripleRef::new(&blank(0), &p, &l)));
}

#[test]
fn malformed_document_does_not_stop_the_stream() {
    let good = obj(vec![("a", integer(1)), ("b", obj(vec![("c", text("x"))]))]);
    let g = convert_documents(&vec![None, Some(good)], &Some(NS.to_string())).unwrap();
    assert_eq!(g.len(), 3);
    assert!(has_literal(&g, 0, "a", "1", xsd::INTEGER));
    assert!(has_link(&g, 0, "b", 1));
    assert!(has_literal(&g, 1, "c", "x", xsd::STRING));
}

#[test]
fn documents_share_one_graph_and_numbering() {
    let docs = vec![
        Some(obj(vec![("a", integer(1))])),
        Some(text("top-level scalar")),
        Some(JsonValue::Array(vec![obj(vec![("b", integer(2))]), integer(3)])),
        Some(obj(vec![("c", integer(4))])),
    ];
    let g = convert_documents(&docs, &Some(NS.to_string())).unwrap();
    assert_eq!(g.len(), 3);
    assert!(has_literal(&g, 0, "a", "1", xsd::INTEGER));
    assert!(has_literal(&g, 1, "b", "2", xsd::INTEGER));
    assert!(has_literal(&g, 2, "c", "4", xsd::INTEGER));
}

#[test]
fn empty_stream_gives_empty_graph() {
    let g = convert_documents(&vec![], &None).unwrap();
    assert!(g.is_empty());
    let h = convert_documents(&vec![None, Some(obj(vec![]))], &None).unwrap();
    assert!(h.is_empty());
}
