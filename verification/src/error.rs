//! The error type used by this crate.
//!
//! Every failure of an encode call is surfaced as one of these variants; the
//! first error anywhere in a traversal aborts the whole call.

use vstd::prelude::*;

verus! {

/// Spec-level image of [`Error`]: the same variants over sequences of
/// characters, so that contracts can speak about errors mathematically.
#[verifier::ext_equal]
pub enum ErrorV {
    Message(Seq<char>),
    MissingSubjectRule(Seq<char>),
    InvalidIdentifier(Seq<char>, Seq<char>),
    UnsupportedValueShape,
    NoActiveSubject,
    EmitterFailure,
}

/// The error type used by this crate.
#[derive(Debug)]
#[non_exhaustive]
pub enum Error {
    /// A generic error message.
    Message(String),
    /// A record type has no entry in the configuration's subject rules;
    /// carries the type name.
    MissingSubjectRule(String),
    /// The identifier field of a record is missing, non-scalar, or cannot be
    /// rendered as a single literal; carries the type name and the field name.
    InvalidIdentifier(String, String),
    /// A value shape the encoder cannot classify.
    UnsupportedValueShape,
    /// A property was encountered outside of any record.
    NoActiveSubject,
    /// The triple emitter reported a failure.
    EmitterFailure,
}

impl View for Error {
    type V = ErrorV;

    open spec fn view(&self) -> ErrorV {
        match self {
            Error::Message(m) => ErrorV::Message(m@),
            Error::MissingSubjectRule(t) => ErrorV::MissingSubjectRule(t@),
            Error::InvalidIdentifier(t, f) => ErrorV::InvalidIdentifier(t@, f@),
            Error::UnsupportedValueShape => ErrorV::UnsupportedValueShape,
            Error::NoActiveSubject => ErrorV::NoActiveSubject,
            Error::EmitterFailure => ErrorV::EmitterFailure,
        }
    }
}

impl ErrorV {
    /// The description that [`Error::message`] returns.
    pub open spec fn spec_message(self) -> Seq<char> {
        match self {
            ErrorV::Message(m) => m,
            ErrorV::MissingSubjectRule(t) => "no subject rule for record type "@ + t,
            ErrorV::InvalidIdentifier(t, f) => "invalid identifier field "@ + f
                + " on record type "@ + t,
            ErrorV::UnsupportedValueShape => "unsupported value shape"@,
            ErrorV::NoActiveSubject => "property encountered outside any record"@,
            ErrorV::EmitterFailure => "the triple emitter reported a failure"@,
        }
    }
}

impl Error {
    /// Wrap a plain message as an error.
    pub fn new(msg: String) -> (r: Error)
        ensures
            r@ == ErrorV::Message(msg@),
    {
        Error::Message(msg)
    }

    /// A human-readable description of the error.
    pub fn message(&self) -> (r: String)
        ensures
            r@ == self@.spec_message(),
    {
        match self {
            Error::Message(m) => m.clone(),
            Error::MissingSubjectRule(t) => {
                let mut r = "no subject rule for record type ".to_owned();
                r.append(t.as_str());
                r
            },
            Error::InvalidIdentifier(t, f) => {
                let mut r = "invalid identifier field ".to_owned();
                r.append(f.as_str());
                r.append(" on record type ");
                r.append(t.as_str());
                r
            },
            Error::UnsupportedValueShape => "unsupported value shape".to_owned(),
            Error::NoActiveSubject => "property encountered outside any record".to_owned(),
            Error::EmitterFailure => "the triple emitter reported a failure".to_owned(),
        }
    }
}

} // verus!
