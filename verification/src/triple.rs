//! The triple model: literals, objects, and triples, together with their
//! spec-level images.
//!
//! A triple is the atomic unit of the emitted RDF data: a subject IRI, a
//! predicate IRI, and an object that is either an IRI reference or a
//! [`Literal`].

use vstd::prelude::*;

verus! {

/// Spec-level image of [`Literal`].
#[verifier::ext_equal]
pub enum LiteralV {
    Simple { value: Seq<char> },
    LanguageTaggedString { value: Seq<char>, language: Seq<char> },
    Typed { value: Seq<char>, datatype: Seq<char> },
}

impl LiteralV {
    /// The lexical form of the literal.
    pub open spec fn lexical(self) -> Seq<char> {
        match self {
            LiteralV::Simple { value } => value,
            LiteralV::LanguageTaggedString { value, .. } => value,
            LiteralV::Typed { value, .. } => value,
        }
    }
}

/// Spec-level image of [`Object`].
#[verifier::ext_equal]
pub enum ObjectV {
    Iri(Seq<char>),
    Literal(LiteralV),
}

/// Spec-level image of [`Triple`].
#[verifier::ext_equal]
pub struct TripleV {
    pub subject: Seq<char>,
    pub predicate: Seq<char>,
    pub object: ObjectV,
}

/// An RDF literal: one of the three literal forms.
#[derive(Debug, Clone)]
pub enum Literal {
    /// A simple literal without datatype or language form.
    Simple {
        /// The lexical form.
        value: String,
    },
    /// A language-tagged string.
    LanguageTaggedString {
        /// The lexical form.
        value: String,
        /// The language tag.
        language: String,
    },
    /// A literal with an explicit datatype.
    Typed {
        /// The lexical form.
        value: String,
        /// The datatype IRI.
        datatype: String,
    },
}

impl View for Literal {
    type V = LiteralV;

    open spec fn view(&self) -> LiteralV {
        match self {
            Literal::Simple { value } => LiteralV::Simple { value: value@ },
            Literal::LanguageTaggedString { value, language } => LiteralV::LanguageTaggedString {
                value: value@,
                language: language@,
            },
            Literal::Typed { value, datatype } => LiteralV::Typed {
                value: value@,
                datatype: datatype@,
            },
        }
    }
}

impl Literal {
    /// Return the lexical form of the literal.
    pub fn value(&self) -> (r: &str)
        ensures
            r@ == self@.lexical(),
    {
        match self {
            Literal::Simple { value } => value.as_str(),
            Literal::LanguageTaggedString { value, .. } => value.as_str(),
            Literal::Typed { value, .. } => value.as_str(),
        }
    }
}

/// The object position of a triple: an IRI reference or a literal.
#[derive(Debug, Clone)]
pub enum Object {
    Iri(String),
    Literal(Literal),
}

impl View for Object {
    type V = ObjectV;

    open spec fn view(&self) -> ObjectV {
        match self {
            Object::Iri(iri) => ObjectV::Iri(iri@),
            Object::Literal(l) => ObjectV::Literal(l@),
        }
    }
}

/// One RDF triple with owned components.
#[derive(Debug, Clone)]
pub struct Triple {
    pub subject: String,
    pub predicate: String,
    pub object: Object,
}

impl View for Triple {
    type V = TripleV;

    open spec fn view(&self) -> TripleV {
        TripleV { subject: self.subject@, predicate: self.predicate@, object: self.object@ }
    }
}

/// The views of a sequence of triples.
pub open spec fn triples_view(ts: Seq<Triple>) -> Seq<TripleV> {
    ts.map_values(|t: Triple| t@)
}

/// The IRI of the `rdf:type` predicate.
pub open spec fn rdf_type_iri() -> Seq<char> {
    "http://www.w3.org/1999/02/22-rdf-syntax-ns#type"@
}

/// The IRI of the `rdf:type` predicate, as an owned string.
pub fn rdf_type_iri_string() -> (r: String)
    ensures
        r@ == rdf_type_iri(),
{
    "http://www.w3.org/1999/02/22-rdf-syntax-ns#type".to_owned()
}

/// The datatype IRI for boolean literals.
pub open spec fn xsd_boolean_iri() -> Seq<char> {
    "http://www.w3.org/2001/XMLSchema#boolean"@
}

/// The datatype IRI for boolean literals, as an owned string.
pub fn xsd_boolean_iri_string() -> (r: String)
    ensures
        r@ == xsd_boolean_iri(),
{
    "http://www.w3.org/2001/XMLSchema#boolean".to_owned()
}

/// The datatype IRI for integer literals.
pub open spec fn xsd_integer_iri() -> Seq<char> {
    "http://www.w3.org/2001/XMLSchema#integer"@
}

/// The datatype IRI for integer literals, as an owned string.
pub fn xsd_integer_iri_string() -> (r: String)
    ensures
        r@ == xsd_integer_iri(),
{
    "http://www.w3.org/2001/XMLSchema#integer".to_owned()
}

/// The datatype IRI for string literals.
pub open spec fn xsd_string_iri() -> Seq<char> {
    "http://www.w3.org/2001/XMLSchema#string"@
}

/// The datatype IRI for string literals, as an owned string.
pub fn xsd_string_iri_string() -> (r: String)
    ensures
        r@ == xsd_string_iri(),
{
    "http://www.w3.org/2001/XMLSchema#string".to_owned()
}

/// The datatype IRI for byte-sequence literals, which this crate renders in
/// lowercase hexadecimal.
pub open spec fn xsd_hex_binary_iri() -> Seq<char> {
    "http://www.w3.org/2001/XMLSchema#hexBinary"@
}

/// The datatype IRI for byte-sequence literals, as an owned string.
pub fn xsd_hex_binary_iri_string() -> (r: String)
    ensures
        r@ == xsd_hex_binary_iri(),
{
    "http://www.w3.org/2001/XMLSchema#hexBinary".to_owned()
}

} // verus!
