//! The triple emitter: a thin sink around `rio_turtle`'s Turtle formatter.
//!
//! This is the one external collaborator of the encoder.  The formatter is
//! deterministic: the text it accumulates is a function of the sequence of
//! triples handed to it, nothing else.  That sequence, and the text that
//! `finish` returns for it, are named by the two uninterpreted spec functions
//! below; every contract about the serialized output goes through those
//! names.

use vstd::prelude::*;

use rio_api::formatter::TriplesFormatter;
use rio_api::model::{
    Literal as RioLiteral, NamedNode as RioNamedNode, Term as RioTerm, Triple as RioTriple,
};

use crate::triple::{Literal, Object, Triple, TripleV};

verus! {

/// Holds a `rio_turtle::TurtleFormatter` over an in-memory buffer.  The
/// formatter type itself cannot be declared to the verifier (its writer
/// bound is refused), so the sink is opaque and described entirely by
/// [`formatted`].
#[verifier::external_body]
pub struct TurtleSink {
    inner: rio_turtle::TurtleFormatter<Vec<u8>>,
}

/// The triples a sink has been handed so far, in order.
pub uninterp spec fn formatted(f: TurtleSink) -> Seq<TripleV>;

/// The Turtle text that finishing a formatter yields for a triple sequence.
pub uninterp spec fn turtle_text(ts: Seq<TripleV>) -> Seq<char>;

/// Relies on `rio_turtle::TurtleFormatter::new`: a fresh formatter over an
/// empty buffer has been handed no triples.
#[verifier::external_body]
pub fn turtle_new() -> (f: TurtleSink)
    ensures
        formatted(f) == Seq::<TripleV>::empty(),
{
    TurtleSink { inner: rio_turtle::TurtleFormatter::new(Vec::new()) }
}

/// Relies on `TriplesFormatter::format` for `rio_turtle::TurtleFormatter`:
/// exactly the given triple is appended to the formatted stream.  The call
/// always succeeds: its only failure path is a write error of the underlying
/// writer, and writes to the in-memory `Vec<u8>` buffer cannot fail.
#[verifier::external_body]
pub fn turtle_format(f: &mut TurtleSink, t: &Triple) -> (ok: bool)
    ensures
        ok,
        formatted(*final(f)) == formatted(*old(f)).push(t@),
{
    let object: RioTerm = match &t.object {
        Object::Iri(iri) => RioNamedNode { iri }.into(),
        Object::Literal(Literal::Simple { value }) => RioLiteral::Simple { value }.into(),
        Object::Literal(Literal::LanguageTaggedString { value, language }) => RioLiteral::LanguageTaggedString { value, language }.into(),
        Object::Literal(Literal::Typed { value, datatype }) => RioLiteral::Typed { value, datatype: RioNamedNode { iri: datatype } }.into(),
    };
    let subject = RioNamedNode { iri: &t.subject }.into();
    let predicate = RioNamedNode { iri: &t.predicate };
    f.inner.format(&RioTriple { subject, predicate, object }).is_ok()
}

/// Relies on `rio_turtle::TurtleFormatter::finish`: it terminates the final
/// triple and returns the accumulated buffer, whose content is a function of
/// the formatted triples alone.  The call always yields the text: writing to
/// and flushing the in-memory `Vec<u8>` buffer cannot fail, and the
/// formatter writes only string contents and ASCII punctuation, so the
/// buffer is always valid UTF-8.
#[verifier::external_body]
pub fn turtle_finish(f: TurtleSink) -> (r: Option<String>)
    ensures
        r is Some,
        r matches Some(out) ==> out@ == turtle_text(formatted(f)),
{
    match f.inner.finish() {
        Ok(bytes) => String::from_utf8(bytes).ok(),
        Err(_) => None,
    }
}

} // verus!
