//! A configuration-driven encoder from structured values to RDF triples,
//! rendered as Turtle text.
//!
//! A caller describes once, in a [`SerializerConfig`], how its record types
//! map onto an RDF vocabulary: which field carries the identifier, what RDF
//! class a record belongs to, and which field maps to which predicate.
//! [`to_triples`] then walks any [`Value`] and derives the triple stream —
//! subject identity, predicate selection, literal typing (including
//! language-tagged multilingual text), and nested-subject linking — and
//! [`to_string`] renders that stream through a Turtle formatter.
//!
//! Every encoding function carries a contract that pins its result to a
//! mathematical model of the traversal; the laws the encoder obeys are
//! stated and proved in [`laws`].

pub mod emit;
pub mod error;
pub mod laws;
pub mod ser;
pub mod structure;
pub mod triple;
pub mod value;

pub use error::Error;
pub use ser::{to_string, to_triples};
pub use structure::{PropertyConfig, SerializerConfig, SubjectBuilder, SubjectConfig, Term};
pub use triple::{Literal, Object, Triple};
pub use value::Value;
