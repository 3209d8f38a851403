use vstd::prelude::*;
use oxrdf::{BlankNode, Graph, Literal, NamedNode, NamedNodeRef, TripleRef};

verus! {

/// The object of a triple as the library models it.
pub enum ObjectV {
    /// The blank node minted with this number.
    Blank(u128),
    /// A literal: lexical form and datatype IRI.
    Literal(Seq<char>, Seq<char>),
}

/// A triple: blank subject, predicate IRI, object.
pub type TripleV = (u128, Seq<char>, ObjectV);

#[verifier::external_type_specification]
#[verifier::external_body]
pub struct ExGraph(oxrdf::Graph);

/// The set of triples that an oxrdf graph holds.
pub uninterp spec fn graph_triples(g: Graph) -> Set<TripleV>;

/// Whether oxrdf accepts a string as an IRI.
pub uninterp spec fn valid_iri(s: Seq<char>) -> bool;

/// Relies on oxrdf::Graph::new: a new graph holds no triple.
#[verifier::external_body]
pub(crate) fn new_graph() -> (g: Graph)
    ensures
        graph_triples(g) == Set::<TripleV>::empty(),
{
    Graph::new()
}

/// Relies on oxrdf::NamedNode::new: it succeeds exactly on the strings it
/// parses as IRIs.
#[verifier::external_body]
pub(crate) fn iri_is_valid(s: &str) -> (r: bool)
    ensures
        r == valid_iri(s@),
{
    NamedNode::new(s).is_ok()
}

/// Relies on oxrdf::Graph::insert (with BlankNode::new_from_unique_id, which
/// gives distinct nodes for distinct numbers): the graph is a set, and gains
/// the link from one blank node to another.
#[verifier::external_body]
pub(crate) fn insert_link(g: &mut Graph, subject: u128, predicate: &str, object: u128)
    requires
        valid_iri(predicate@),
    ensures
        graph_triples(*final(g)) == graph_triples(*old(g)).insert(
            (subject, predicate@, ObjectV::Blank(object)),
        ),
{
    let s = BlankNode::new_from_unique_id(subject);
    let o = BlankNode::new_from_unique_id(object);
    g.insert(TripleRef::new(&s, NamedNodeRef::new_unchecked(predicate), &o));
}

/// Relies on oxrdf::Graph::insert (with Literal::new_typed_literal): the
/// graph is a set, and gains a triple whose object is the typed literal.
#[verifier::external_body]
pub(crate) fn insert_literal(
    g: &mut Graph,
    subject: u128,
    predicate: &str,
    lexical: &str,
    datatype: &str,
)
    requires
        valid_iri(predicate@),
    ensures
        graph_triples(*final(g)) == graph_triples(*old(g)).insert(
            (subject, predicate@, ObjectV::Literal(lexical@, datatype@)),
        ),
{
    let s = BlankNode::new_from_unique_id(subject);
    let o = Literal::new_typed_literal(lexical, NamedNodeRef::new_unchecked(datatype));
    g.insert(TripleRef::new(&s, NamedNodeRef::new_unchecked(predicate), &o));
}

} // verus!
