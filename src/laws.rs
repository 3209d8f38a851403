use vstd::prelude::*;
use crate::json::{JsonNumber, JsonValue, width};
use crate::property::property_iri;
use crate::rdf::{TripleV, valid_iri};
use crate::convert::{emit, emit_prefix, stream_triples, stream_objects};

verus! {

broadcast use vstd::std_specs::vec::axiom_vec_index_decreases;

/// The edges of the nesting tree that a value placed under a key adds: one
/// for a scalar, one for an object plus the edges of its members, those of
/// each element for an array, none for `null`.
pub open spec fn value_edges(v: JsonValue) -> nat
    decreases v, width(v) + 1,
{
    match v {
        JsonValue::Null => 0,
        JsonValue::Object(_) => 1 + prefix_edges(v, width(v) as int),
        JsonValue::Array(_) => prefix_edges(v, width(v) as int),
        _ => 1,
    }
}

/// The edges of the first `n` members or elements of `v`.
pub open spec fn prefix_edges(v: JsonValue, n: int) -> nat
    decreases v, n,
{
    if n <= 0 || n > width(v) {
        0
    } else {
        match v {
            JsonValue::Object(es) => prefix_edges(v, n - 1) + value_edges(es[n - 1].1),
            JsonValue::Array(xs) => prefix_edges(v, n - 1) + value_edges(xs[n - 1]),
            _ => 0,
        }
    }
}

/// Every number of `v` has a literal form and every key of `v` gives a
/// valid predicate IRI under `ns`.
pub open spec fn convertible(v: JsonValue, ns: Seq<char>) -> bool
    decreases v, width(v) + 1,
{
    match v {
        JsonValue::Number(JsonNumber::Unrepresentable) => false,
        JsonValue::Object(_) => prefix_convertible(v, width(v) as int, ns),
        JsonValue::Array(_) => prefix_convertible(v, width(v) as int, ns),
        _ => true,
    }
}

/// `convertible` for the first `n` members or elements of `v`.
pub open spec fn prefix_convertible(v: JsonValue, n: int, ns: Seq<char>) -> bool
    decreases v, n,
{
    if n <= 0 || n > width(v) {
        true
    } else {
        match v {
            JsonValue::Object(es) => prefix_convertible(v, n - 1, ns) && valid_iri(
                property_iri(ns, es[n - 1].0@),
            ) && convertible(es[n - 1].1, ns),
            JsonValue::Array(xs) => prefix_convertible(v, n - 1, ns) && convertible(xs[n - 1], ns),
            _ => true,
        }
    }
}

proof fn lemma_value_len(
    v: JsonValue,
    s: u128,
    p: Seq<char>,
    ns: Seq<char>,
    next: nat,
)
    requires
        convertible(v, ns),
        valid_iri(p),
    ensures
        emit(v, Some(s), Some(p), ns, next).len() == value_edges(v),
    decreases v, width(v) + 1,
{
    match v {
        JsonValue::Object(_) => {
            lemma_prefix_len(v, width(v) as int, Some(s), Some(p), ns, next);
        },
        JsonValue::Array(_) => {
            lemma_prefix_len(v, width(v) as int, Some(s), Some(p), ns, next);
        },
        _ => {},
    }
}

proof fn lemma_prefix_len(
    v: JsonValue,
    n: int,
    parent: Option<u128>,
    prop: Option<Seq<char>>,
    ns: Seq<char>,
    next: nat,
)
    requires
        0 <= n <= width(v),
        prefix_convertible(v, n, ns),
        v is Array ==> parent is Some && prop is Some && valid_iri(prop->0),
    ensures
        emit_prefix(v, n, parent, prop, ns, next).len() == prefix_edges(v, n),
    decreases v, n,
{
    if n > 0 {
        lemma_prefix_len(v, n - 1, parent, prop, ns, next);
        match v {
            JsonValue::Object(es) => {
                lemma_value_len(
                    es[n - 1].1,
                    next as u128,
                    property_iri(ns, es[n - 1].0@),
                    ns,
                    next + 1 + crate::convert::prefix_objects(v, n - 1),
                );
            },
            JsonValue::Array(xs) => {
                lemma_value_len(
                    xs[n - 1],
                    parent->0,
                    prop->0,
                    ns,
                    next + crate::convert::prefix_objects(v, n - 1),
                );
            },
            _ => {},
        }
    }
}

/// Converting a top-level object emits one triple per edge of its nesting
/// tree: one per non-null scalar and one per nested object, counting array
/// elements one by one, provided every number has a literal form and every
/// key gives a valid IRI.
pub proof fn lemma_one_triple_per_edge(v: JsonValue, ns: Seq<char>, next: nat)
    requires
        v is Object,
        convertible(v, ns),
    ensures
        emit(v, None, None, ns, next).len() == prefix_edges(v, width(v) as int),
{
    lemma_prefix_len(v, width(v) as int, None, None, ns, next);
}

/// A `null` emits no triple, wherever it stands.
pub proof fn lemma_null_emits_nothing(
    parent: Option<u128>,
    prop: Option<Seq<char>>,
    ns: Seq<char>,
    next: nat,
)
    ensures
        emit(JsonValue::Null, parent, prop, ns, next) == Seq::<TripleV>::empty(),
{
}

/// Converting the same stream a second time into the same graph, with the
/// same numbering, leaves the graph as one conversion made it.
pub proof fn lemma_rerun_changes_nothing(
    graph: Set<TripleV>,
    docs: Seq<Option<JsonValue>>,
    ns: Seq<char>,
    start: nat,
)
    ensures
        graph + stream_triples(docs, ns, start).to_set() + stream_triples(docs, ns, start).to_set()
            == graph + stream_triples(docs, ns, start).to_set(),
{
    assert(graph + stream_triples(docs, ns, start).to_set() + stream_triples(
        docs,
        ns,
        start,
    ).to_set() =~= graph + stream_triples(docs, ns, start).to_set());
}

/// In a stream of two documents of which one did not parse, the other one
/// still gives all its triples.
pub proof fn lemma_malformed_document_skipped(d: JsonValue, ns: Seq<char>)
    ensures
        stream_triples(seq![None, Some(d)], ns, 0) == emit(d, None, None, ns, 0),
        stream_triples(seq![Some(d), None], ns, 0) == emit(d, None, None, ns, 0),
{
    let s1: Seq<Option<JsonValue>> = seq![None, Some(d)];
    let s2: Seq<Option<JsonValue>> = seq![Some(d), None];
    let a = s1.drop_last();
    let b = s2.drop_last();
    assert(a.drop_last() =~= Seq::<Option<JsonValue>>::empty());
    assert(b.drop_last() =~= Seq::<Option<JsonValue>>::empty());
    assert(a.last() is None);
    assert(b.last() == Some(d));
    assert(stream_objects(a.drop_last()) == 0);
    assert(stream_triples(a.drop_last(), ns, 0) =~= Seq::<TripleV>::empty());
    assert(stream_objects(b.drop_last()) == 0);
    assert(stream_triples(b.drop_last(), ns, 0) =~= Seq::<TripleV>::empty());
    assert(stream_objects(a) == 0);
    assert(stream_triples(a, ns, 0) =~= Seq::<TripleV>::empty());
    assert(stream_triples(s1, ns, 0) =~= emit(d, None, None, ns, 0));
    assert(stream_triples(b, ns, 0) =~= emit(d, None, None, ns, 0));
    assert(stream_triples(s2, ns, 0) =~= emit(d, None, None, ns, 0));
}

} // verus!
