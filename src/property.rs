use vstd::prelude::*;
use vstd::string::*;

verus! {

/// The predicate IRI for a key: namespace, `/`, key, at every depth.
pub open spec fn property_iri(namespace: Seq<char>, key: Seq<char>) -> Seq<char> {
    namespace + seq!['/'] + key
}

/// Builds the predicate IRI for a key. The result is not checked to be a
/// legal IRI.
pub fn resolve_property(namespace: &str, key: &str) -> (r: String)
    ensures
        r@ == property_iri(namespace@, key@),
{
    let mut r = String::from_str(namespace);
    r.append("/");
    r.append(key);
    proof {
        reveal_strlit("/");
    }
    r
}

} // verus!
