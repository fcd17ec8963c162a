//! The structured-value encoder: walk a [`Value`] depth-first, consult the
//! mapping configuration, and produce the stream of RDF triples.
//!
//! The traversal is specified by a family of spec functions that mirror the
//! executable encoder exactly.  Nesting of subject contexts is realized by the
//! recursion itself: a record's subject IRI is computed when the record is
//! entered, its `rdf:type` triple is emitted first, its fields are processed
//! in declaration order, and a nested record is fully emitted before the link
//! triple from its parent.  The first error anywhere aborts the whole call.

use vstd::prelude::*;

use crate::emit::{formatted, turtle_finish, turtle_format, turtle_new, turtle_text};
use crate::error::{Error, ErrorV};
use crate::structure::{
    spec_lookup_property, spec_lookup_subject, lookup_property, lookup_subject, SerializerConfig,
    SubjectConfig,
};
use crate::triple::{
    rdf_type_iri, rdf_type_iri_string, triples_view, xsd_string_iri, xsd_string_iri_string,
    Literal, LiteralV, Object, ObjectV, Triple, TripleV,
};
use crate::value::{
    check_lang_code, find_field, is_literalish, scalar_literal, spec_find_field,
    spec_scalar_literal, valid_lang_code, Value,
};

verus! {

/// The language-tagged triples of the multilingual-text entries from index
/// `i` on: one triple per entry, sharing subject and predicate.  An entry
/// whose language code is outside the accepted domain is a configuration
/// error, not silently defaulted.
pub open spec fn spec_lang_triples(
    subject: Seq<char>,
    predicate: Seq<char>,
    entries: Seq<(String, String)>,
    i: int,
) -> Result<Seq<TripleV>, ErrorV>
    decreases entries.len() - i,
{
    if i < 0 || i >= entries.len() {
        Ok(Seq::empty())
    } else if !valid_lang_code(entries[i].0@) {
        Err(ErrorV::UnsupportedValueShape)
    } else {
        match spec_lang_triples(subject, predicate, entries, i + 1) {
            Ok(rest) => Ok(
                seq![
                    TripleV {
                        subject,
                        predicate,
                        object: ObjectV::Literal(
                            LiteralV::LanguageTaggedString {
                                value: entries[i].1@,
                                language: entries[i].0@,
                            },
                        ),
                    },
                ] + rest,
            ),
            Err(e) => Err(e),
        }
    }
}

/// The literal triples of one scalar or multilingual-text value in a mapped
/// field: one triple for a scalar, one per language entry for multilingual
/// text, none for the absent value.
pub open spec fn spec_literal_triples(
    subject: Seq<char>,
    predicate: Seq<char>,
    v: Value,
) -> Result<Seq<TripleV>, ErrorV>
    recommends
        is_literalish(v),
{
    match v {
        Value::LangText(entries) => spec_lang_triples(subject, predicate, entries@, 0),
        _ => match spec_scalar_literal(v) {
            Some(l) => Ok(
                seq![TripleV { subject, predicate, object: ObjectV::Literal(l) }],
            ),
            None => Ok(Seq::empty()),
        },
    }
}

/// Whether every element of a sequence produces literals (scalar or
/// multilingual text).
pub open spec fn all_literalish(es: Seq<Value>) -> bool {
    forall|i: int| 0 <= i < es.len() ==> is_literalish(#[trigger] es[i])
}

/// Whether every element of a sequence is a record.
pub open spec fn all_records(es: Seq<Value>) -> bool {
    forall|i: int| 0 <= i < es.len() ==> (#[trigger] es[i]) is Record
}

/// The triples of a whole value handed to the encoder.  Only records (and
/// sequences or variants that resolve to records) can stand at the top level:
/// anything else would produce a property with no active subject.
pub open spec fn spec_encode_value(v: Value, c: SerializerConfig) -> Result<Seq<TripleV>, ErrorV>
    decreases v, 4int, 0int,
{
    match v {
        Value::Record(_, _) => match spec_encode_record(v, c) {
            Ok((ts, _)) => Ok(ts),
            Err(e) => Err(e),
        },
        Value::Sequence(es) => spec_encode_top_seq(es@, c, 0),
        Value::Variant(_, vals) => if vals@.len() == 1 {
            spec_encode_value(vals@[0], c)
        } else if vals@.len() == 0 {
            Err(ErrorV::NoActiveSubject)
        } else {
            spec_encode_top_seq(vals@, c, 0)
        },
        _ => Err(ErrorV::NoActiveSubject),
    }
}

/// The triples of the top-level sequence elements from index `i` on, in
/// element order.
pub open spec fn spec_encode_top_seq(es: Seq<Value>, c: SerializerConfig, i: int) -> Result<
    Seq<TripleV>,
    ErrorV,
>
    decreases es, 5int, es.len() - i,
{
    if i < 0 || i >= es.len() {
        Ok(Seq::empty())
    } else {
        match spec_encode_value(es[i], c) {
            Ok(ts) => match spec_encode_top_seq(es, c, i + 1) {
                Ok(rest) => Ok(ts + rest),
                Err(e) => Err(e),
            },
            Err(e) => Err(e),
        }
    }
}

/// The triples of one record, together with its subject IRI.  The subject
/// rule is resolved first; then the identifier field must resolve to exactly
/// one literal; the `rdf:type` triple is emitted before any property triple.
pub open spec fn spec_encode_record(v: Value, c: SerializerConfig) -> Result<
    (Seq<TripleV>, Seq<char>),
    ErrorV,
>
    recommends
        v is Record,
    decreases v, 2int, 0int,
{
    match v {
        Value::Record(name, fields) => match spec_lookup_subject(c.subjects@, name@) {
            None => Err(ErrorV::MissingSubjectRule(name@)),
            Some(rule) => match spec_find_field(fields@, rule.identifier_field@) {
                None => Err(ErrorV::InvalidIdentifier(name@, rule.identifier_field@)),
                Some(idv) => match spec_scalar_literal(idv) {
                    None => Err(ErrorV::InvalidIdentifier(name@, rule.identifier_field@)),
                    Some(idlit) => {
                        let subject = rule.identifier_prefix@ + idlit.lexical();
                        match spec_encode_fields(fields@, rule, subject, c, 0) {
                            Ok(ts) => Ok(
                                (
                                    seq![
                                        TripleV {
                                            subject,
                                            predicate: rdf_type_iri(),
                                            object: ObjectV::Iri(rule.rdf_type@),
                                        },
                                    ] + ts,
                                    subject,
                                ),
                            ),
                            Err(e) => Err(e),
                        }
                    },
                },
            },
        },
        _ => Err(ErrorV::NoActiveSubject),
    }
}

/// The property triples of the record fields from index `i` on, in
/// declaration order.  The identifier field and unmapped fields are skipped.
pub open spec fn spec_encode_fields(
    fields: Seq<(String, Value)>,
    rule: SubjectConfig,
    subject: Seq<char>,
    c: SerializerConfig,
    i: int,
) -> Result<Seq<TripleV>, ErrorV>
    decreases fields, 1int, fields.len() - i,
{
    if i < 0 || i >= fields.len() {
        Ok(Seq::empty())
    } else {
        let head = if fields[i].0@ == rule.identifier_field@ {
            Ok(Seq::empty())
        } else {
            match spec_lookup_property(rule.properties@, fields[i].0@) {
                None => Ok(Seq::empty()),
                Some(p) => spec_encode_field(subject, p.rdf_property@, fields[i].1, c),
            }
        };
        match head {
            Ok(hts) => match spec_encode_fields(fields, rule, subject, c, i + 1) {
                Ok(rest) => Ok(hts + rest),
                Err(e) => Err(e),
            },
            Err(e) => Err(e),
        }
    }
}

/// The triples of one mapped field value.  A scalar or multilingual text
/// produces literal triples; a record is serialized as its own subject and
/// then linked from the enclosing record; a sequence is flattened or linked
/// according to its element kind; a variant is encoded as its carried value,
/// the bare variant name as a string literal, or a positional sequence.
pub open spec fn spec_encode_field(
    subject: Seq<char>,
    predicate: Seq<char>,
    v: Value,
    c: SerializerConfig,
) -> Result<Seq<TripleV>, ErrorV>
    decreases v, 3int, 0int,
{
    if is_literalish(v) {
        spec_literal_triples(subject, predicate, v)
    } else {
        match v {
            Value::Record(_, _) => match spec_encode_record(v, c) {
                Ok((ts, child)) => Ok(
                    ts + seq![TripleV { subject, predicate, object: ObjectV::Iri(child) }],
                ),
                Err(e) => Err(e),
            },
            Value::Sequence(es) => spec_encode_seq_field(subject, predicate, es@, c),
            Value::Variant(vn, vals) => if vals@.len() == 1 {
                spec_encode_field(subject, predicate, vals@[0], c)
            } else if vals@.len() == 0 {
                Ok(
                    seq![
                        TripleV {
                            subject,
                            predicate,
                            object: ObjectV::Literal(
                                LiteralV::Typed { value: vn@, datatype: xsd_string_iri() },
                            ),
                        },
                    ],
                )
            } else {
                spec_encode_seq_field(subject, predicate, vals@, c)
            },
            _ => Err(ErrorV::UnsupportedValueShape),
        }
    }
}

/// The triples of a sequence-valued field: a sequence of scalars or
/// multilingual texts is flattened, a sequence of records is linked, and a
/// mixed or otherwise shaped sequence cannot be classified.
pub open spec fn spec_encode_seq_field(
    subject: Seq<char>,
    predicate: Seq<char>,
    es: Seq<Value>,
    c: SerializerConfig,
) -> Result<Seq<TripleV>, ErrorV>
    decreases es, 6int, 0int,
{
    if all_literalish(es) {
        spec_flatten(subject, predicate, es, 0)
    } else if all_records(es) {
        spec_link(subject, predicate, es, c, 0)
    } else {
        Err(ErrorV::UnsupportedValueShape)
    }
}

/// Flattening: one triple per literal-producing element from index `i` on,
/// all sharing the same subject and predicate.
pub open spec fn spec_flatten(
    subject: Seq<char>,
    predicate: Seq<char>,
    es: Seq<Value>,
    i: int,
) -> Result<Seq<TripleV>, ErrorV>
    decreases es, 0int, es.len() - i,
{
    if i < 0 || i >= es.len() {
        Ok(Seq::empty())
    } else {
        match spec_literal_triples(subject, predicate, es[i]) {
            Ok(h) => match spec_flatten(subject, predicate, es, i + 1) {
                Ok(rest) => Ok(h + rest),
                Err(e) => Err(e),
            },
            Err(e) => Err(e),
        }
    }
}

/// Linking: each record element from index `i` on is serialized as its own
/// subject, followed by one link triple from the enclosing record's subject;
/// the child's triples come before its link triple.
pub open spec fn spec_link(
    subject: Seq<char>,
    predicate: Seq<char>,
    es: Seq<Value>,
    c: SerializerConfig,
    i: int,
) -> Result<Seq<TripleV>, ErrorV>
    decreases es, 4int, es.len() - i,
{
    if i < 0 || i >= es.len() {
        Ok(Seq::empty())
    } else {
        match spec_encode_record(es[i], c) {
            Ok((ts, child)) => match spec_link(subject, predicate, es, c, i + 1) {
                Ok(rest) => Ok(
                    ts + seq![TripleV { subject, predicate, object: ObjectV::Iri(child) }] + rest,
                ),
                Err(e) => Err(e),
            },
            Err(e) => Err(e),
        }
    }
}

/// Relates an executable triple-stream result to the model: on success
/// the views agree exactly, on failure the errors agree exactly.
pub open spec fn res_matches(r: Result<Vec<Triple>, Error>, s: Result<Seq<TripleV>, ErrorV>) -> bool {
    match r {
        Ok(ts) => s == Ok::<Seq<TripleV>, ErrorV>(triples_view(ts@)),
        Err(e) => s == Err::<Seq<TripleV>, ErrorV>(e@),
    }
}

proof fn lemma_triples_view_concat(a: Seq<Triple>, b: Seq<Triple>)
    ensures
        triples_view(a + b) == triples_view(a) + triples_view(b),
{
    assert(triples_view(a + b) =~= triples_view(a) + triples_view(b));
}

fn is_literalish_exec(v: &Value) -> (r: bool)
    ensures
        r == is_literalish(*v),
{
    match v {
        Value::Bool(_) => true,
        Value::Int(_) => true,
        Value::UInt(_) => true,
        Value::Char(_) => true,
        Value::Str(_) => true,
        Value::Bytes(_) => true,
        Value::Unit => true,
        Value::LangText(_) => true,
        _ => false,
    }
}

fn seq_all_literalish(es: &Vec<Value>) -> (r: bool)
    ensures
        r == all_literalish(es@),
{
    let mut i: usize = 0;
    while i < es.len()
        invariant
            i <= es@.len(),
            forall|j: int| 0 <= j < i ==> is_literalish(#[trigger] es@[j]),
        decreases es@.len() - i,
    {
        if !is_literalish_exec(&es[i]) {
            return false;
        }
        i += 1;
    }
    true
}

fn seq_all_records(es: &Vec<Value>) -> (r: bool)
    ensures
        r == all_records(es@),
{
    let mut i: usize = 0;
    while i < es.len()
        invariant
            i <= es@.len(),
            forall|j: int| 0 <= j < i ==> (#[trigger] es@[j]) is Record,
        decreases es@.len() - i,
    {
        match &es[i] {
            Value::Record(_, _) => {},
            _ => {
                return false;
            },
        }
        i += 1;
    }
    true
}

fn encode_lang_from(
    subject: &String,
    predicate: &String,
    entries: &Vec<(String, String)>,
    i: usize,
) -> (r: Result<Vec<Triple>, Error>)
    requires
        i <= entries@.len(),
    ensures
        res_matches(r, spec_lang_triples(subject@, predicate@, entries@, i as int)),
    decreases entries@.len() - i,
{
    if i >= entries.len() {
        let out: Vec<Triple> = Vec::new();
        assert(triples_view(out@) =~= Seq::<TripleV>::empty());
        return Ok(out);
    }
    if !check_lang_code(&entries[i].0) {
        return Err(Error::UnsupportedValueShape);
    }
    match encode_lang_from(subject, predicate, entries, i + 1) {
        Ok(mut rest) => {
            let ghost rest0 = rest@;
            let mut out: Vec<Triple> = Vec::new();
            out.push(
                Triple {
                    subject: subject.clone(),
                    predicate: predicate.clone(),
                    object: Object::Literal(
                        Literal::LanguageTaggedString {
                            value: entries[i].1.clone(),
                            language: entries[i].0.clone(),
                        },
                    ),
                },
            );
            let ghost head0 = out@;
            out.append(&mut rest);
            proof {
                lemma_triples_view_concat(head0, rest0);
                assert(triples_view(head0) =~= seq![head0[0]@]);
                assert(triples_view(out@) =~= spec_lang_triples(
                    subject@,
                    predicate@,
                    entries@,
                    i as int,
                )->Ok_0);
            }
            Ok(out)
        },
        Err(e) => Err(e),
    }
}

fn encode_literal_triples(subject: &String, predicate: &String, v: &Value) -> (r: Result<
    Vec<Triple>,
    Error,
>)
    ensures
        res_matches(r, spec_literal_triples(subject@, predicate@, *v)),
{
    match v {
        Value::LangText(entries) => encode_lang_from(subject, predicate, entries, 0),
        _ => match scalar_literal(v) {
            Some(l) => {
                let mut out: Vec<Triple> = Vec::new();
                out.push(
                    Triple {
                        subject: subject.clone(),
                        predicate: predicate.clone(),
                        object: Object::Literal(l),
                    },
                );
                assert(triples_view(out@) =~= spec_literal_triples(
                    subject@,
                    predicate@,
                    *v,
                )->Ok_0);
                Ok(out)
            },
            None => {
                let out: Vec<Triple> = Vec::new();
                assert(triples_view(out@) =~= Seq::<TripleV>::empty());
                Ok(out)
            },
        },
    }
}

/// Encode a whole structured value against a configuration, producing the
/// triple stream: the model's triples on success, the first classified
/// error of the traversal on failure.
pub fn to_triples(value: &Value, config: &SerializerConfig) -> (r: Result<Vec<Triple>, Error>)
    ensures
        res_matches(r, spec_encode_value(*value, *config)),
    decreases *value, 4int, 0int,
{
    match value {
        Value::Record(_, _) => match encode_record(value, config) {
            Ok((ts, _)) => Ok(ts),
            Err(e) => Err(e),
        },
        Value::Sequence(es) => encode_top_seq_from(es, config, 0),
        Value::Variant(_, vals) => if vals.len() == 1 {
            to_triples(&vals[0], config)
        } else if vals.len() == 0 {
            Err(Error::NoActiveSubject)
        } else {
            encode_top_seq_from(vals, config, 0)
        },
        _ => Err(Error::NoActiveSubject),
    }
}

fn encode_top_seq_from(es: &Vec<Value>, config: &SerializerConfig, i: usize) -> (r: Result<
    Vec<Triple>,
    Error,
>)
    requires
        i <= es@.len(),
    ensures
        res_matches(r, spec_encode_top_seq(es@, *config, i as int)),
    decreases es@, 5int, es@.len() - i,
{
    if i >= es.len() {
        let out: Vec<Triple> = Vec::new();
        assert(triples_view(out@) =~= Seq::<TripleV>::empty());
        return Ok(out);
    }
    match to_triples(&es[i], config) {
        Ok(mut out) => {
            let ghost head0 = out@;
            match encode_top_seq_from(es, config, i + 1) {
                Ok(mut rest) => {
                    let ghost rest0 = rest@;
                    out.append(&mut rest);
                    proof {
                        lemma_triples_view_concat(head0, rest0);
                    }
                    Ok(out)
                },
                Err(e) => Err(e),
            }
        },
        Err(e) => Err(e),
    }
}

fn encode_record(v: &Value, config: &SerializerConfig) -> (r: Result<(Vec<Triple>, String), Error>)
    ensures
        match r {
            Ok((ts, subj)) => spec_encode_record(*v, *config) == Ok::<_, ErrorV>(
                (triples_view(ts@), subj@),
            ),
            Err(e) => spec_encode_record(*v, *config) == Err::<(Seq<TripleV>, Seq<char>), ErrorV>(
                e@,
            ),
        },
    decreases *v, 2int, 0int,
{
    match v {
        Value::Record(name, fields) => {
            let rule = match lookup_subject(&config.subjects, name) {
                None => {
                    return Err(Error::MissingSubjectRule(name.clone()));
                },
                Some(rule) => rule,
            };
            let idv = match find_field(fields, &rule.identifier_field) {
                None => {
                    return Err(
                        Error::InvalidIdentifier(name.clone(), rule.identifier_field.clone()),
                    );
                },
                Some(idv) => idv,
            };
            let idlit = match scalar_literal(idv) {
                None => {
                    return Err(
                        Error::InvalidIdentifier(name.clone(), rule.identifier_field.clone()),
                    );
                },
                Some(idlit) => idlit,
            };
            let subject = rule.identifier_prefix.clone().concat(idlit.value());
            let mut out: Vec<Triple> = Vec::new();
            out.push(
                Triple {
                    subject: subject.clone(),
                    predicate: rdf_type_iri_string(),
                    object: Object::Iri(rule.rdf_type.clone()),
                },
            );
            let ghost head0 = out@;
            match encode_fields_from(fields, rule, &subject, config, 0) {
                Ok(mut ts) => {
                    let ghost rest0 = ts@;
                    out.append(&mut ts);
                    proof {
                        lemma_triples_view_concat(head0, rest0);
                        assert(triples_view(head0) =~= seq![head0[0]@]);
                    }
                    Ok((out, subject))
                },
                Err(e) => Err(e),
            }
        },
        _ => Err(Error::NoActiveSubject),
    }
}

fn encode_fields_from(
    fields: &Vec<(String, Value)>,
    rule: &SubjectConfig,
    subject: &String,
    config: &SerializerConfig,
    i: usize,
) -> (r: Result<Vec<Triple>, Error>)
    requires
        i <= fields@.len(),
    ensures
        res_matches(r, spec_encode_fields(fields@, *rule, subject@, *config, i as int)),
    decreases fields@, 1int, fields@.len() - i,
{
    if i >= fields.len() {
        let out: Vec<Triple> = Vec::new();
        assert(triples_view(out@) =~= Seq::<TripleV>::empty());
        return Ok(out);
    }
    let head: Result<Vec<Triple>, Error> = if fields[i].0 == rule.identifier_field {
        let out: Vec<Triple> = Vec::new();
        assert(triples_view(out@) =~= Seq::<TripleV>::empty());
        Ok(out)
    } else {
        match lookup_property(&rule.properties, &fields[i].0) {
            None => {
                let out: Vec<Triple> = Vec::new();
                assert(triples_view(out@) =~= Seq::<TripleV>::empty());
                Ok(out)
            },
            Some(p) => encode_field(subject, &p.rdf_property, &fields[i].1, config),
        }
    };
    match head {
        Ok(mut out) => {
            let ghost head0 = out@;
            match encode_fields_from(fields, rule, subject, config, i + 1) {
                Ok(mut rest) => {
                    let ghost rest0 = rest@;
                    out.append(&mut rest);
                    proof {
                        lemma_triples_view_concat(head0, rest0);
                    }
                    Ok(out)
                },
                Err(e) => Err(e),
            }
        },
        Err(e) => Err(e),
    }
}

fn encode_field(subject: &String, predicate: &String, v: &Value, config: &SerializerConfig) -> (r:
    Result<Vec<Triple>, Error>)
    ensures
        res_matches(r, spec_encode_field(subject@, predicate@, *v, *config)),
    decreases *v, 3int, 0int,
{
    if is_literalish_exec(v) {
        return encode_literal_triples(subject, predicate, v);
    }
    match v {
        Value::Record(_, _) => match encode_record(v, config) {
            Ok((mut ts, child)) => {
                let ghost head0 = ts@;
                ts.push(
                    Triple {
                        subject: subject.clone(),
                        predicate: predicate.clone(),
                        object: Object::Iri(child),
                    },
                );
                proof {
                    assert(ts@ =~= head0 + seq![ts@[head0.len() as int]]);
                    lemma_triples_view_concat(head0, seq![ts@[head0.len() as int]]);
                    assert(triples_view(seq![ts@[head0.len() as int]]) =~= seq![
                        ts@[head0.len() as int]@,
                    ]);
                }
                Ok(ts)
            },
            Err(e) => Err(e),
        },
        Value::Sequence(es) => encode_seq_field(subject, predicate, es, config),
        Value::Variant(vn, vals) => if vals.len() == 1 {
            encode_field(subject, predicate, &vals[0], config)
        } else if vals.len() == 0 {
            let mut out: Vec<Triple> = Vec::new();
            out.push(
                Triple {
                    subject: subject.clone(),
                    predicate: predicate.clone(),
                    object: Object::Literal(
                        Literal::Typed { value: vn.clone(), datatype: xsd_string_iri_string() },
                    ),
                },
            );
            assert(triples_view(out@) =~= spec_encode_field(
                subject@,
                predicate@,
                *v,
                *config,
            )->Ok_0);
            Ok(out)
        } else {
            encode_seq_field(subject, predicate, vals, config)
        },
        _ => Err(Error::UnsupportedValueShape),
    }
}

fn encode_seq_field(
    subject: &String,
    predicate: &String,
    es: &Vec<Value>,
    config: &SerializerConfig,
) -> (r: Result<Vec<Triple>, Error>)
    ensures
        res_matches(r, spec_encode_seq_field(subject@, predicate@, es@, *config)),
    decreases es@, 6int, 0int,
{
    if seq_all_literalish(es) {
        encode_flatten_from(subject, predicate, es, 0)
    } else if seq_all_records(es) {
        encode_link_from(subject, predicate, es, config, 0)
    } else {
        Err(Error::UnsupportedValueShape)
    }
}

fn encode_flatten_from(subject: &String, predicate: &String, es: &Vec<Value>, i: usize) -> (r:
    Result<Vec<Triple>, Error>)
    requires
        i <= es@.len(),
    ensures
        res_matches(r, spec_flatten(subject@, predicate@, es@, i as int)),
    decreases es@, 0int, es@.len() - i,
{
    if i >= es.len() {
        let out: Vec<Triple> = Vec::new();
        assert(triples_view(out@) =~= Seq::<TripleV>::empty());
        return Ok(out);
    }
    match encode_literal_triples(subject, predicate, &es[i]) {
        Ok(mut out) => {
            let ghost head0 = out@;
            match encode_flatten_from(subject, predicate, es, i + 1) {
                Ok(mut rest) => {
                    let ghost rest0 = rest@;
                    out.append(&mut rest);
                    proof {
                        lemma_triples_view_concat(head0, rest0);
                    }
                    Ok(out)
                },
                Err(e) => Err(e),
            }
        },
        Err(e) => Err(e),
    }
}

/// Serialize a structured value as Turtle text under the given mapping
/// configuration.
///
/// The result is exact in both directions: whenever the traversal model
/// succeeds, so does the call, and the text is exactly the emitter's
/// rendering of the model's triple stream; every resolution or
/// classification failure of the traversal is returned unchanged, and
/// nothing is emitted.  The emitter here is an in-memory sink that cannot
/// fail, so [`Error::EmitterFailure`] never arises from this entry point;
/// the defensive branches below keep the failure policy visible should the
/// emitter ever gain a fallible transport.
pub fn to_string(value: &Value, config: &SerializerConfig) -> (r: Result<String, Error>)
    ensures
        match spec_encode_value(*value, *config) {
            Ok(ts) => r matches Ok(out) && out@ == turtle_text(ts),
            Err(ev) => r matches Err(e) && e@ == ev,
        },
{
    let ts = match to_triples(value, config) {
        Ok(ts) => ts,
        Err(e) => {
            return Err(e);
        },
    };
    let mut f = turtle_new();
    assert(formatted(f) =~= triples_view(ts@).subrange(0, 0));
    let mut i: usize = 0;
    while i < ts.len()
        invariant
            i <= ts@.len(),
            formatted(f) == triples_view(ts@).subrange(0, i as int),
            spec_encode_value(*value, *config) == Ok::<Seq<TripleV>, ErrorV>(triples_view(ts@)),
        decreases ts@.len() - i,
    {
        let ok = turtle_format(&mut f, &ts[i]);
        if !ok {
            return Err(Error::EmitterFailure);
        }
        proof {
            assert(formatted(f) =~= triples_view(ts@).subrange(0, i + 1));
        }
        i += 1;
    }
    proof {
        assert(triples_view(ts@).subrange(0, ts@.len() as int) =~= triples_view(ts@));
    }
    match turtle_finish(f) {
        Some(out) => Ok(out),
        None => Err(Error::EmitterFailure),
    }
}

fn encode_link_from(
    subject: &String,
    predicate: &String,
    es: &Vec<Value>,
    config: &SerializerConfig,
    i: usize,
) -> (r: Result<Vec<Triple>, Error>)
    requires
        i <= es@.len(),
    ensures
        res_matches(r, spec_link(subject@, predicate@, es@, *config, i as int)),
    decreases es@, 4int, es@.len() - i,
{
    if i >= es.len() {
        let out: Vec<Triple> = Vec::new();
        assert(triples_view(out@) =~= Seq::<TripleV>::empty());
        return Ok(out);
    }
    match encode_record(&es[i], config) {
        Ok((mut out, child)) => {
            let ghost head0 = out@;
            out.push(
                Triple {
                    subject: subject.clone(),
                    predicate: predicate.clone(),
                    object: Object::Iri(child),
                },
            );
            let ghost linked0 = out@;
            proof {
                assert(linked0 =~= head0 + seq![linked0[head0.len() as int]]);
                lemma_triples_view_concat(head0, seq![linked0[head0.len() as int]]);
                assert(triples_view(seq![linked0[head0.len() as int]]) =~= seq![
                    linked0[head0.len() as int]@,
                ]);
            }
            match encode_link_from(subject, predicate, es, config, i + 1) {
                Ok(mut rest) => {
                    let ghost rest0 = rest@;
                    out.append(&mut rest);
                    proof {
                        lemma_triples_view_concat(linked0, rest0);
                    }
                    Ok(out)
                },
                Err(e) => Err(e),
            }
        },
        Err(e) => Err(e),
    }
}

} // verus!
