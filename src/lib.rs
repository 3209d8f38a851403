//! Lifts a stream of JSON documents into an RDF graph.
//!
//! Every JSON object becomes a fresh blank node, every key becomes a
//! predicate IRI under a namespace, and every scalar becomes a typed literal.
//! What a conversion emits is stated by the spec functions of [`convert`],
//! and the general facts about it are proved in [`laws`].
pub mod json;
pub mod literal;
pub mod property;
pub mod rdf;
pub mod convert;
pub mod laws;

pub use json::{JsonNumber, JsonValue};
pub use literal::{Datatype, LiteralValue, map_literal, datatype_iri};
pub use property::resolve_property;
pub use convert::{convert_value, convert_documents, current_subject, DEFAULT_NAMESPACE};
