use vstd::prelude::*;
use vstd::seq_lib::seq_to_set_distributes_over_add;
use crate::json::{JsonValue, width};
use crate::literal::{literal_of, datatype_iri_spec};
use crate::property::property_iri;
use crate::property::resolve_property;
use crate::literal::{map_literal, datatype_iri};
use crate::rdf::{ObjectV, TripleV, valid_iri, graph_triples, iri_is_valid, insert_link, insert_literal, new_graph};
use oxrdf::Graph;

verus! {

broadcast use vstd::std_specs::vec::axiom_vec_index_decreases;

/// The number of objects in a value, itself included: each one takes a
/// blank node.
pub open spec fn objects(v: JsonValue) -> nat
    decreases v, width(v) + 1,
{
    match v {
        JsonValue::Object(_) => 1 + prefix_objects(v, width(v) as int),
        JsonValue::Array(_) => prefix_objects(v, width(v) as int),
        _ => 0,
    }
}

/// The number of objects in the first `n` members or elements of `v`.
pub open spec fn prefix_objects(v: JsonValue, n: int) -> nat
    decreases v, n,
{
    if n <= 0 || n > width(v) {
        0
    } else {
        match v {
            JsonValue::Object(es) => prefix_objects(v, n - 1) + objects(es[n - 1].1),
            JsonValue::Array(xs) => prefix_objects(v, n - 1) + objects(xs[n - 1]),
            _ => 0,
        }
    }
}

/// The triple that a scalar gives under its subject and property, if any.
pub open spec fn scalar_triples(
    v: JsonValue,
    parent: Option<u128>,
    prop: Option<Seq<char>>,
) -> Seq<TripleV> {
    match (parent, prop, literal_of(v)) {
        (Some(s), Some(p), Some((lex, d))) => if valid_iri(p) {
            seq![(s, p, ObjectV::Literal(lex, datatype_iri_spec(d)))]
        } else {
            seq![]
        },
        _ => seq![],
    }
}

/// The triple that links a new object's blank node to its parent, if any.
pub open spec fn link_triples(parent: Option<u128>, prop: Option<Seq<char>>, id: u128) -> Seq<
    TripleV,
> {
    match (parent, prop) {
        (Some(s), Some(p)) => if valid_iri(p) {
            seq![(s, p, ObjectV::Blank(id))]
        } else {
            seq![]
        },
        _ => seq![],
    }
}

/// The triples that converting `v` emits, in order, where `parent` is the
/// enclosing object's blank node, `prop` the predicate inherited from the
/// enclosing key, and `next` the number of the next blank node to mint.
/// Objects are numbered in document order.
pub open spec fn emit(
    v: JsonValue,
    parent: Option<u128>,
    prop: Option<Seq<char>>,
    ns: Seq<char>,
    next: nat,
) -> Seq<TripleV>
    decreases v, width(v) + 1,
{
    match v {
        JsonValue::Object(_) => link_triples(parent, prop, next as u128) + emit_prefix(
            v,
            width(v) as int,
            parent,
            prop,
            ns,
            next,
        ),
        JsonValue::Array(_) => emit_prefix(v, width(v) as int, parent, prop, ns, next),
        _ => scalar_triples(v, parent, prop),
    }
}

/// The triples of the first `n` members of an object (`next` is its own
/// blank node) or elements of an array (which passes `parent` and `prop`
/// through).
pub open spec fn emit_prefix(
    v: JsonValue,
    n: int,
    parent: Option<u128>,
    prop: Option<Seq<char>>,
    ns: Seq<char>,
    next: nat,
) -> Seq<TripleV>
    decreases v, n,
{
    if n <= 0 || n > width(v) {
        seq![]
    } else {
        match v {
            JsonValue::Object(es) => emit_prefix(v, n - 1, parent, prop, ns, next) + emit(
                es[n - 1].1,
                Some(next as u128),
                Some(property_iri(ns, es[n - 1].0@)),
                ns,
                next + 1 + prefix_objects(v, n - 1),
            ),
            JsonValue::Array(xs) => emit_prefix(v, n - 1, parent, prop, ns, next) + emit(
                xs[n - 1],
                parent,
                prop,
                ns,
                next + prefix_objects(v, n - 1),
            ),
            _ => seq![],
        }
    }
}

/// The spec view of an optional property.
pub open spec fn prop_view(p: Option<String>) -> Option<Seq<char>> {
    match p {
        Some(s) => Some(s@),
        None => None,
    }
}

proof fn lemma_empty_to_set()
    ensures
        Seq::<TripleV>::empty().to_set() == Set::<TripleV>::empty(),
{
    assert(Seq::<TripleV>::empty().to_set() =~= Set::<TripleV>::empty());
}

proof fn lemma_one_to_set(t: TripleV)
    ensures
        seq![t].to_set() == set![t],
{
    assert(seq![t][0] == t);
    assert(seq![t].to_set() =~= set![t]);
}

proof fn lemma_prefix_objects_grows(v: JsonValue, i: int, j: int)
    requires
        0 <= i <= j <= width(v),
    ensures
        prefix_objects(v, i) <= prefix_objects(v, j),
    decreases j - i,
{
    if i < j {
        lemma_prefix_objects_grows(v, i, j - 1);
    }
}

/// The current subject: the top of the stack of open objects.
pub open spec fn top(stack: Seq<u128>) -> Option<u128> {
    if stack.len() == 0 {
        None
    } else {
        Some(stack.last())
    }
}

/// The blank node of the innermost open object, if any.
pub fn current_subject(stack: &Vec<u128>) -> (r: Option<u128>)
    ensures
        r == top(stack@),
{
    if stack.len() == 0 {
        None
    } else {
        Some(stack[stack.len() - 1])
    }
}

/// Converts one value into `graph`. `stack` holds the blank nodes of the
/// objects that enclose the value, innermost last; `prop` is the predicate
/// of the enclosing key, and `next` the number of the next blank node, which
/// each object takes in turn. Each object pushes its blank node while its
/// members are converted and pops it after, so the stack comes back as it
/// was. A triple whose predicate is not an IRI is left out.
pub fn convert_value(
    v: &JsonValue,
    stack: &mut Vec<u128>,
    prop: &Option<String>,
    ns: &str,
    next: &mut u128,
    graph: &mut Graph,
)
    requires
        *old(next) + objects(*v) <= u128::MAX,
    ensures
        graph_triples(*final(graph)) == graph_triples(*old(graph)) + emit(
            *v,
            top(old(stack)@),
            prop_view(*prop),
            ns@,
            *old(next) as nat,
        ).to_set(),
        *final(next) == *old(next) + objects(*v),
        final(stack)@ == old(stack)@,
    decreases v,
{
    let ghost g0 = graph_triples(*graph);
    let ghost s0 = stack@;
    let parent = current_subject(stack);
    let ghost pv = prop_view(*prop);
    match v {
        JsonValue::Object(es) => {
            let id = *next;
            *next = id + 1;
            if let Some(s) = parent {
                if let Some(p) = prop {
                    if iri_is_valid(p.as_str()) {
                        insert_link(graph, s, p.as_str(), id);
                    }
                }
            }
            let ghost link = link_triples(parent, pv, id);
            proof {
                lemma_empty_to_set();
                if let (Some(s), Some(p)) = (parent, pv) {
                    lemma_one_to_set((s, p, ObjectV::Blank(id)));
                }
                assert(graph_triples(*graph) =~= g0 + link.to_set());
            }
            stack.push(id);
            let mut i: usize = 0;
            while i < es.len()
                invariant
                    0 <= i <= es@.len(),
                    stack@ == s0.push(id),
                    *v == JsonValue::Object(*es),
                    id as nat + objects(*v) <= u128::MAX,
                    *next == id + 1 + prefix_objects(*v, i as int),
                    graph_triples(*graph) == g0 + (link + emit_prefix(
                        *v,
                        i as int,
                        parent,
                        pv,
                        ns@,
                        id as nat,
                    )).to_set(),
                decreases es.len() - i,
            {
                let key = &es[i].0;
                let val = &es[i].1;
                let p = resolve_property(ns, key.as_str());
                let ghost n0 = *next;
                proof {
                    lemma_prefix_objects_grows(*v, i as int + 1, es@.len() as int);
                }
                convert_value(val, stack, &Some(p), ns, next, graph);
                proof {
                    let e = emit(
                        *val,
                        Some(id),
                        Some(property_iri(ns@, key@)),
                        ns@,
                        n0 as nat,
                    );
                    let pre = link + emit_prefix(*v, i as int, parent, pv, ns@, id as nat);
                    assert(emit_prefix(*v, i + 1, parent, pv, ns@, id as nat) == emit_prefix(
                        *v,
                        i as int,
                        parent,
                        pv,
                        ns@,
                        id as nat,
                    ) + e);
                    assert(link + emit_prefix(*v, i + 1, parent, pv, ns@, id as nat) =~= pre + e);
                    seq_to_set_distributes_over_add(pre, e);
                    assert(graph_triples(*graph) =~= g0 + (pre + e).to_set());
                }
                i = i + 1;
            }
            stack.pop();
            proof {
                assert(stack@ =~= s0);
                assert(emit(*v, parent, pv, ns@, id as nat) == link + emit_prefix(
                    *v,
                    es@.len() as int,
                    parent,
                    pv,
                    ns@,
                    id as nat,
                ));
            }
        },
        JsonValue::Array(xs) => {
            let ghost start = *next;
            let mut i: usize = 0;
            while i < xs.len()
                invariant
                    0 <= i <= xs@.len(),
                    stack@ == s0,
                    parent == top(s0),
                    *v == JsonValue::Array(*xs),
                    pv == prop_view(*prop),
                    start as nat + objects(*v) <= u128::MAX,
                    *next == start + prefix_objects(*v, i as int),
                    graph_triples(*graph) == g0 + emit_prefix(
                        *v,
                        i as int,
                        parent,
                        pv,
                        ns@,
                        start as nat,
                    ).to_set(),
                decreases xs.len() - i,
            {
                let val = &xs[i];
                let ghost n0 = *next;
                let ghost before = graph_triples(*graph);
                proof {
                    lemma_prefix_objects_grows(*v, i as int + 1, xs@.len() as int);
                }
                convert_value(val, stack, prop, ns, next, graph);
                proof {
                    let e = emit(*val, parent, pv, ns@, n0 as nat);
                    let pre = emit_prefix(*v, i as int, parent, pv, ns@, start as nat);
                    assert(emit_prefix(*v, i + 1, parent, pv, ns@, start as nat) == pre + e);
                    seq_to_set_distributes_over_add(pre, e);
                    assert(before == g0 + pre.to_set());
                    assert(graph_triples(*graph) =~= g0 + (pre + e).to_set());
                }
                i = i + 1;
            }
        },
        _ => {
            if let Some(s) = parent {
                if let Some(p) = prop {
                    if let Some(lit) = map_literal(v) {
                        if iri_is_valid(p.as_str()) {
                            insert_literal(
                                graph,
                                s,
                                p.as_str(),
                                lit.lexical.as_str(),
                                datatype_iri(lit.datatype),
                            );
                        }
                    }
                }
            }
            proof {
                lemma_empty_to_set();
                if let (Some(s), Some(p), Some((lex, d))) = (parent, pv, literal_of(*v)) {
                    lemma_one_to_set((s, p, ObjectV::Literal(lex, datatype_iri_spec(d))));
                }
                assert(graph_triples(*graph) =~= g0 + scalar_triples(*v, parent, pv).to_set());
            }
        },
    }
}


/// Counts the objects in a value, stopping at `u128::MAX`.
pub(crate) fn count_objects(v: &JsonValue) -> (r: u128)
    ensures
        r == if objects(*v) <= u128::MAX { objects(*v) } else { u128::MAX as nat },
    decreases v,
{
    match v {
        JsonValue::Object(es) => {
            let mut total: u128 = 1;
            let mut i: usize = 0;
            while i < es.len()
                invariant
                    0 <= i <= es@.len(),
                    *v == JsonValue::Object(*es),
                    total == if 1 + prefix_objects(*v, i as int) <= u128::MAX {
                        1 + prefix_objects(*v, i as int)
                    } else {
                        u128::MAX as nat
                    },
                decreases es.len() - i,
            {
                let c = count_objects(&es[i].1);
                total = if c > u128::MAX - total { u128::MAX } else { total + c };
                i = i + 1;
            }
            total
        },
        JsonValue::Array(xs) => {
            let mut total: u128 = 0;
            let mut i: usize = 0;
            while i < xs.len()
                invariant
                    0 <= i <= xs@.len(),
                    *v == JsonValue::Array(*xs),
                    total == if prefix_objects(*v, i as int) <= u128::MAX {
                        prefix_objects(*v, i as int)
                    } else {
                        u128::MAX as nat
                    },
                decreases xs.len() - i,
            {
                let c = count_objects(&xs[i]);
                total = if c > u128::MAX - total { u128::MAX } else { total + c };
                i = i + 1;
            }
            total
        },
        _ => 0,
    }
}

/// The namespace used when none is given.
pub const DEFAULT_NAMESPACE: &'static str = "https://decisym.ai/json2rdf/model";

/// The namespace that a run uses.
pub open spec fn namespace_of(ns: Option<String>) -> Seq<char> {
    match ns {
        Some(s) => s@,
        None => DEFAULT_NAMESPACE@,
    }
}

/// The number of objects in a stream of documents; a document that did not
/// parse (`None`) has none.
pub open spec fn stream_objects(docs: Seq<Option<JsonValue>>) -> nat
    decreases docs.len(),
{
    if docs.len() == 0 {
        0
    } else {
        stream_objects(docs.drop_last()) + match docs.last() {
            Some(d) => objects(d),
            None => 0,
        }
    }
}

/// The triples of a stream of documents, blank nodes numbered from `start`.
/// Each document starts with no enclosing subject or property, so a
/// top-level scalar gives nothing, and a document that did not parse is
/// skipped.
pub open spec fn stream_triples(docs: Seq<Option<JsonValue>>, ns: Seq<char>, start: nat) -> Seq<
    TripleV,
>
    decreases docs.len(),
{
    if docs.len() == 0 {
        seq![]
    } else {
        stream_triples(docs.drop_last(), ns, start) + match docs.last() {
            Some(d) => emit(d, None, None, ns, start + stream_objects(docs.drop_last())),
            None => seq![],
        }
    }
}

/// Converts a stream of documents into one graph, under `namespace` or
/// [`DEFAULT_NAMESPACE`]. A document that did not parse (`None`) is skipped
/// and the stream goes on. Blank nodes are numbered from 0 across the whole
/// stream; the result is `None` exactly when the stream holds too many
/// objects for that numbering.
///
/// The subject stack is empty between documents, so a top-level array or
/// scalar has no subject: its scalars give nothing, and its objects give
/// their own members but no link. A property left over from an earlier
/// document therefore never shows in the graph.
pub fn convert_documents(docs: &Vec<Option<JsonValue>>, namespace: &Option<String>) -> (r: Option<
    Graph,
>)
    ensures
        r.is_some() <==> stream_objects(docs@) < u128::MAX,
        r matches Some(g) ==> graph_triples(g) == stream_triples(
            docs@,
            namespace_of(*namespace),
            0,
        ).to_set(),
{
    let ns: &str = match namespace {
        Some(s) => s.as_str(),
        None => DEFAULT_NAMESPACE,
    };
    let mut graph = new_graph();
    let mut next: u128 = 0;
    let mut stack: Vec<u128> = Vec::new();
    let mut i: usize = 0;
    while i < docs.len()
        invariant
            stack@.len() == 0,
            0 <= i <= docs@.len(),
            ns@ == namespace_of(*namespace),
            next == stream_objects(docs@.take(i as int)),
            next < u128::MAX,
            graph_triples(graph) == stream_triples(docs@.take(i as int), ns@, 0).to_set(),
        decreases docs.len() - i,
    {
        let ghost pre = docs@.take(i as int);
        proof {
            assert(docs@.take(i + 1).drop_last() =~= pre);
            lemma_stream_objects_grows(docs@, i + 1);
        }
        match &docs[i] {
            Some(d) => {
                let c = count_objects(d);
                if c >= u128::MAX - next {
                    return None;
                }
                convert_value(d, &mut stack, &None, ns, &mut next, &mut graph);
                proof {
                    let e = emit(*d, None, None, ns@, stream_objects(pre));
                    seq_to_set_distributes_over_add(stream_triples(pre, ns@, 0), e);
                    assert(graph_triples(graph) =~= stream_triples(
                        docs@.take(i + 1),
                        ns@,
                        0,
                    ).to_set());
                }
            },
            None => {
                proof {
                    assert(stream_triples(docs@.take(i + 1), ns@, 0) =~= stream_triples(
                        pre,
                        ns@,
                        0,
                    ));
                }
            },
        }
        i = i + 1;
    }
    proof {
        assert(docs@.take(docs@.len() as int) =~= docs@);
    }
    Some(graph)
}

proof fn lemma_stream_objects_grows(docs: Seq<Option<JsonValue>>, n: int)
    requires
        0 <= n <= docs.len(),
    ensures
        stream_objects(docs.take(n)) <= stream_objects(docs),
    decreases docs.len() - n,
{
    if n < docs.len() {
        lemma_stream_objects_grows(docs, n + 1);
        assert(docs.take(n + 1).drop_last() =~= docs.take(n));
    } else {
        assert(docs.take(n) =~= docs);
    }
}

} // verus!
