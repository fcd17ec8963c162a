//! Laws of the encoder: properties that hold of every encode call, stated
//! over the mathematical model of [`crate::ser`] and proved once and for all.

use vstd::prelude::*;

use crate::error::ErrorV;
use crate::structure::{
    spec_lookup_property, spec_lookup_property_from, spec_lookup_subject,
    spec_lookup_subject_from, PropertyConfig, SerializerConfig, SubjectConfig,
};
use crate::triple::{rdf_type_iri, LiteralV, ObjectV, TripleV};
use crate::value::{is_literalish, is_scalar, spec_find_field, spec_scalar_literal, Value};
use crate::ser::{
    all_literalish, all_records, spec_encode_field, spec_encode_fields, spec_encode_record,
    spec_encode_seq_field, spec_encode_top_seq, spec_encode_value, spec_flatten,
    spec_lang_triples, spec_link, spec_literal_triples,
};

verus! {

/// Determinism: the triple stream of a value under a configuration is a
/// single mathematical function of the two, so any two successful encodings
/// of the same pair yield the same triples, and hence byte-identical
/// serialized text.  Since [`crate::ser::to_string`]'s contract pins its
/// result to this function in both directions — success exactly when the
/// model succeeds — two calls on the same value and configuration agree in
/// outcome, not merely when both happen to succeed.
pub proof fn lemma_encode_deterministic(
    v: Value,
    c: SerializerConfig,
    ts1: Seq<TripleV>,
    ts2: Seq<TripleV>,
)
    requires
        spec_encode_value(v, c) == Ok::<Seq<TripleV>, ErrorV>(ts1),
        spec_encode_value(v, c) == Ok::<Seq<TripleV>, ErrorV>(ts2),
    ensures
        ts1 == ts2,
        crate::emit::turtle_text(ts1) == crate::emit::turtle_text(ts2),
{
}

proof fn lemma_lang_triples_shape(
    subject: Seq<char>,
    predicate: Seq<char>,
    entries: Seq<(String, String)>,
    i: int,
)
    ensures
        spec_lang_triples(subject, predicate, entries, i) matches Ok(ts) ==> forall|j: int|
            0 <= j < ts.len() ==> (#[trigger] ts[j]).subject == subject && ts[j].predicate
                == predicate && ts[j].object is Literal,
    decreases entries.len() - i,
{
    if 0 <= i < entries.len() {
        lemma_lang_triples_shape(subject, predicate, entries, i + 1);
    }
}

proof fn lemma_literal_triples_shape(subject: Seq<char>, predicate: Seq<char>, v: Value)
    ensures
        spec_literal_triples(subject, predicate, v) matches Ok(ts) ==> forall|j: int|
            0 <= j < ts.len() ==> (#[trigger] ts[j]).subject == subject && ts[j].predicate
                == predicate && ts[j].object is Literal,
{
    match v {
        Value::LangText(entries) => {
            lemma_lang_triples_shape(subject, predicate, entries@, 0);
        },
        _ => {},
    }
}

proof fn lemma_flatten_shape(subject: Seq<char>, predicate: Seq<char>, es: Seq<Value>, i: int)
    ensures
        spec_flatten(subject, predicate, es, i) matches Ok(ts) ==> forall|j: int|
            0 <= j < ts.len() ==> (#[trigger] ts[j]).subject == subject && ts[j].predicate
                == predicate && ts[j].object is Literal,
    decreases es.len() - i,
{
    if 0 <= i < es.len() {
        lemma_literal_triples_shape(subject, predicate, es[i]);
        lemma_flatten_shape(subject, predicate, es, i + 1);
    }
}

proof fn lemma_flatten_scalars(subject: Seq<char>, predicate: Seq<char>, es: Seq<Value>, i: int)
    requires
        0 <= i <= es.len(),
        forall|k: int| i <= k < es.len() ==> spec_scalar_literal(#[trigger] es[k]) is Some,
    ensures
        spec_flatten(subject, predicate, es, i) matches Ok(ts) && ts.len() == es.len() - i
            && forall|j: int|
            0 <= j < ts.len() ==> (#[trigger] ts[j]).object == ObjectV::Literal(
                spec_scalar_literal(es[i + j])->Some_0,
            ),
    decreases es.len() - i,
{
    if i < es.len() {
        lemma_flatten_scalars(subject, predicate, es, i + 1);
        assert(es[i] is LangText ==> spec_scalar_literal(es[i]) is None);
        let ts = spec_flatten(subject, predicate, es, i)->Ok_0;
        let rest = spec_flatten(subject, predicate, es, i + 1)->Ok_0;
        assert forall|j: int| 0 <= j < ts.len() implies (#[trigger] ts[j]).object
            == ObjectV::Literal(spec_scalar_literal(es[i + j])->Some_0) by {
            if j > 0 {
                assert(ts[j] == rest[j - 1]);
            }
        }
    }
}

/// Flatten law: a sequence-of-scalars field of length `n`, every element a
/// present scalar, produces exactly `n` triples for its predicate, all
/// sharing the enclosing record's subject IRI, and the `j`-th triple's
/// object is the `j`-th element's literal — element order is kept.  (An
/// absent element would be skipped, so absent values are excluded here.)
pub proof fn lemma_flatten_law(
    subject: Seq<char>,
    predicate: Seq<char>,
    es: Seq<Value>,
    c: SerializerConfig,
)
    requires
        forall|i: int| 0 <= i < es.len() ==> is_scalar(#[trigger] es[i]),
        forall|i: int| 0 <= i < es.len() ==> spec_scalar_literal(#[trigger] es[i]) is Some,
    ensures
        spec_encode_seq_field(subject, predicate, es, c) matches Ok(ts) && ts.len() == es.len()
            && forall|j: int|
            0 <= j < ts.len() ==> (#[trigger] ts[j]).subject == subject && ts[j].predicate
                == predicate && ts[j].object == ObjectV::Literal(
                spec_scalar_literal(es[j])->Some_0,
            ),
{
    assert(all_literalish(es));
    lemma_flatten_scalars(subject, predicate, es, 0);
    lemma_flatten_shape(subject, predicate, es, 0);
}

proof fn lemma_lang_order(
    subject: Seq<char>,
    predicate: Seq<char>,
    entries: Seq<(String, String)>,
    i: int,
)
    requires
        0 <= i <= entries.len(),
        forall|k: int|
            i <= k < entries.len() ==> crate::value::valid_lang_code((#[trigger] entries[k]).0@),
    ensures
        spec_lang_triples(subject, predicate, entries, i) matches Ok(ts) && ts.len()
            == entries.len() - i && forall|j: int|
            0 <= j < ts.len() ==> (#[trigger] ts[j]) == (TripleV {
                subject,
                predicate,
                object: ObjectV::Literal(
                    LiteralV::LanguageTaggedString {
                        value: entries[i + j].1@,
                        language: entries[i + j].0@,
                    },
                ),
            }),
    decreases entries.len() - i,
{
    if i < entries.len() {
        lemma_lang_order(subject, predicate, entries, i + 1);
        let ts = spec_lang_triples(subject, predicate, entries, i)->Ok_0;
        let rest = spec_lang_triples(subject, predicate, entries, i + 1)->Ok_0;
        assert forall|j: int| 0 <= j < ts.len() implies (#[trigger] ts[j]) == (TripleV {
            subject,
            predicate,
            object: ObjectV::Literal(
                LiteralV::LanguageTaggedString {
                    value: entries[i + j].1@,
                    language: entries[i + j].0@,
                },
            ),
        }) by {
            if j > 0 {
                assert(ts[j] == rest[j - 1]);
            }
        }
    }
}

/// Multilingual-text law: a multilingual-text field with `n` entries, every
/// language code in the accepted domain, produces exactly `n` triples — one
/// per entry, in entry order — all sharing the field's subject and
/// predicate, each object the language-tagged literal of its entry's text
/// and code, and no other triple.
pub proof fn lemma_multilingual_law(
    subject: Seq<char>,
    predicate: Seq<char>,
    entries: Vec<(String, String)>,
)
    requires
        forall|k: int|
            0 <= k < entries@.len() ==> crate::value::valid_lang_code((#[trigger] entries@[k]).0@),
    ensures
        spec_literal_triples(subject, predicate, Value::LangText(entries)) matches Ok(ts)
            && ts.len() == entries@.len() && forall|j: int|
            0 <= j < ts.len() ==> (#[trigger] ts[j]) == (TripleV {
                subject,
                predicate,
                object: ObjectV::Literal(
                    LiteralV::LanguageTaggedString {
                        value: entries@[j].1@,
                        language: entries@[j].0@,
                    },
                ),
            }),
{
    lemma_lang_order(subject, predicate, entries@, 0);
}

/// On success, a record's first triple is its `rdf:type` triple: its subject
/// is the record's subject IRI and its predicate is `rdf:type`.
pub proof fn lemma_record_shape(v: Value, c: SerializerConfig)
    requires
        spec_encode_record(v, c) is Ok,
    ensures
        ({
            let (ts, subj) = spec_encode_record(v, c)->Ok_0;
            ts.len() >= 1 && ts[0].subject == subj && ts[0].predicate == rdf_type_iri()
        }),
{
}

/// A record holding exactly its identifier field and one mapped field
/// encodes as its own `rdf:type` triple followed by exactly that field's
/// triples and nothing else.  This pins the record's whole stream to the
/// field encoding that the flatten, link and multilingual-text laws
/// describe, so those laws carry over to the full output of such a record.
pub proof fn lemma_single_field_record(v: Value, c: SerializerConfig)
    requires
        spec_encode_record(v, c) is Ok,
        ({
            let fields = v->Record_1@;
            let rule = spec_lookup_subject(c.subjects@, v->Record_0@)->Some_0;
            &&& fields.len() == 2
            &&& fields[0].0@ == rule.identifier_field@
            &&& fields[1].0@ != rule.identifier_field@
            &&& spec_lookup_property(rule.properties@, fields[1].0@) is Some
        }),
    ensures
        ({
            let fields = v->Record_1@;
            let rule = spec_lookup_subject(c.subjects@, v->Record_0@)->Some_0;
            let p = spec_lookup_property(rule.properties@, fields[1].0@)->Some_0;
            let (ts, subj) = spec_encode_record(v, c)->Ok_0;
            &&& spec_encode_field(subj, p.rdf_property@, fields[1].1, c) is Ok
            &&& ts == seq![
                TripleV {
                    subject: subj,
                    predicate: rdf_type_iri(),
                    object: ObjectV::Iri(rule.rdf_type@),
                },
            ] + spec_encode_field(subj, p.rdf_property@, fields[1].1, c)->Ok_0
        }),
{
    let fields = v->Record_1@;
    let rule = spec_lookup_subject(c.subjects@, v->Record_0@)->Some_0;
    let p = spec_lookup_property(rule.properties@, fields[1].0@)->Some_0;
    let (ts, subj) = spec_encode_record(v, c)->Ok_0;
    reveal_with_fuel(spec_encode_fields, 4);
    let fts = spec_encode_field(subj, p.rdf_property@, fields[1].1, c)->Ok_0;
    assert(spec_encode_fields(fields, rule, subj, c, 2) == Ok::<Seq<TripleV>, ErrorV>(
        Seq::empty(),
    ));
    assert(spec_encode_fields(fields, rule, subj, c, 0)->Ok_0 =~= fts);
    assert(ts =~= seq![
        TripleV { subject: subj, predicate: rdf_type_iri(), object: ObjectV::Iri(rule.rdf_type@) },
    ] + fts);
}

/// Whole-record multilingual law: a record holding exactly its identifier
/// field and one mapped multilingual-text field with `n` valid entries
/// encodes as its `rdf:type` triple followed by exactly `n` language-tagged
/// triples, one per entry in entry order, all with the record's subject IRI
/// and the field's predicate, and nothing else.
pub proof fn lemma_record_multilingual_law(v: Value, c: SerializerConfig)
    requires
        spec_encode_record(v, c) is Ok,
        ({
            let fields = v->Record_1@;
            let rule = spec_lookup_subject(c.subjects@, v->Record_0@)->Some_0;
            &&& fields.len() == 2
            &&& fields[0].0@ == rule.identifier_field@
            &&& fields[1].0@ != rule.identifier_field@
            &&& spec_lookup_property(rule.properties@, fields[1].0@) is Some
            &&& fields[1].1 is LangText
            &&& forall|k: int|
                0 <= k < fields[1].1->LangText_0@.len() ==> crate::value::valid_lang_code(
                    (#[trigger] fields[1].1->LangText_0@[k]).0@,
                )
        }),
    ensures
        ({
            let fields = v->Record_1@;
            let rule = spec_lookup_subject(c.subjects@, v->Record_0@)->Some_0;
            let p = spec_lookup_property(rule.properties@, fields[1].0@)->Some_0;
            let entries = fields[1].1->LangText_0@;
            let (ts, subj) = spec_encode_record(v, c)->Ok_0;
            &&& ts.len() == 1 + entries.len()
            &&& ts[0] == (TripleV {
                subject: subj,
                predicate: rdf_type_iri(),
                object: ObjectV::Iri(rule.rdf_type@),
            })
            &&& forall|j: int|
                0 <= j < entries.len() ==> #[trigger] ts[1 + j] == (TripleV {
                    subject: subj,
                    predicate: p.rdf_property@,
                    object: ObjectV::Literal(
                        LiteralV::LanguageTaggedString {
                            value: entries[j].1@,
                            language: entries[j].0@,
                        },
                    ),
                })
        }),
{
    lemma_single_field_record(v, c);
    let fields = v->Record_1@;
    let rule = spec_lookup_subject(c.subjects@, v->Record_0@)->Some_0;
    let p = spec_lookup_property(rule.properties@, fields[1].0@)->Some_0;
    let entries = fields[1].1->LangText_0@;
    let (ts, subj) = spec_encode_record(v, c)->Ok_0;
    lemma_lang_order(subj, p.rdf_property@, entries, 0);
    let fts = spec_encode_field(subj, p.rdf_property@, fields[1].1, c)->Ok_0;
    assert(fts == spec_lang_triples(subj, p.rdf_property@, entries, 0)->Ok_0);
    assert forall|j: int| 0 <= j < entries.len() implies #[trigger] ts[1 + j] == (TripleV {
        subject: subj,
        predicate: p.rdf_property@,
        object: ObjectV::Literal(
            LiteralV::LanguageTaggedString { value: entries[j].1@, language: entries[j].0@ },
        ),
    }) by {
        assert(ts[1 + j] == fts[j]);
    }
}

/// Whole-record flatten law: a record holding exactly its identifier field
/// and one mapped sequence-of-scalars field of length `n`, every element a
/// present scalar, encodes as its `rdf:type` triple followed by exactly `n`
/// triples — all with the record's subject IRI and the field's predicate,
/// the `j`-th object being the `j`-th element's literal — and nothing else.
pub proof fn lemma_record_flatten_law(v: Value, c: SerializerConfig)
    requires
        spec_encode_record(v, c) is Ok,
        ({
            let fields = v->Record_1@;
            let rule = spec_lookup_subject(c.subjects@, v->Record_0@)->Some_0;
            &&& fields.len() == 2
            &&& fields[0].0@ == rule.identifier_field@
            &&& fields[1].0@ != rule.identifier_field@
            &&& spec_lookup_property(rule.properties@, fields[1].0@) is Some
            &&& fields[1].1 is Sequence
            &&& forall|k: int|
                0 <= k < fields[1].1->Sequence_0@.len() ==> is_scalar(
                    #[trigger] fields[1].1->Sequence_0@[k],
                )
            &&& forall|k: int|
                0 <= k < fields[1].1->Sequence_0@.len() ==> spec_scalar_literal(
                    #[trigger] fields[1].1->Sequence_0@[k],
                ) is Some
        }),
    ensures
        ({
            let fields = v->Record_1@;
            let rule = spec_lookup_subject(c.subjects@, v->Record_0@)->Some_0;
            let p = spec_lookup_property(rule.properties@, fields[1].0@)->Some_0;
            let es = fields[1].1->Sequence_0@;
            let (ts, subj) = spec_encode_record(v, c)->Ok_0;
            &&& ts.len() == 1 + es.len()
            &&& ts[0] == (TripleV {
                subject: subj,
                predicate: rdf_type_iri(),
                object: ObjectV::Iri(rule.rdf_type@),
            })
            &&& forall|j: int|
                0 <= j < es.len() ==> #[trigger] ts[1 + j] == (TripleV {
                    subject: subj,
                    predicate: p.rdf_property@,
                    object: ObjectV::Literal(spec_scalar_literal(es[j])->Some_0),
                })
        }),
{
    lemma_single_field_record(v, c);
    let fields = v->Record_1@;
    let rule = spec_lookup_subject(c.subjects@, v->Record_0@)->Some_0;
    let p = spec_lookup_property(rule.properties@, fields[1].0@)->Some_0;
    let es = fields[1].1->Sequence_0@;
    let (ts, subj) = spec_encode_record(v, c)->Ok_0;
    let fval = fields[1].1;
    assert(!is_literalish(fval));
    lemma_flatten_law(subj, p.rdf_property@, es, c);
    let fts = spec_encode_field(subj, p.rdf_property@, fval, c)->Ok_0;
    assert(fts == spec_encode_seq_field(subj, p.rdf_property@, es, c)->Ok_0);
    assert forall|j: int| 0 <= j < es.len() implies #[trigger] ts[1 + j] == (TripleV {
        subject: subj,
        predicate: p.rdf_property@,
        object: ObjectV::Literal(spec_scalar_literal(es[j])->Some_0),
    }) by {
        assert(ts[1 + j] == fts[j]);
        assert(fts[j].subject == subj && fts[j].predicate == p.rdf_property@ && fts[j].object
            == ObjectV::Literal(spec_scalar_literal(es[j])->Some_0));
    }
}

/// Whole-record nested-record law: a record holding exactly its identifier
/// field and one mapped nested-record field encodes as the parent's
/// `rdf:type` triple, then the nested record's complete stream — its own
/// `rdf:type` triple first — then exactly one link triple from the parent's
/// subject to the nested subject, and nothing else.  In particular the
/// nested record's `rdf:type` triple stands before the link triple that
/// points to it.
pub proof fn lemma_nested_record_law(v: Value, c: SerializerConfig)
    requires
        spec_encode_record(v, c) is Ok,
        ({
            let fields = v->Record_1@;
            let rule = spec_lookup_subject(c.subjects@, v->Record_0@)->Some_0;
            &&& fields.len() == 2
            &&& fields[0].0@ == rule.identifier_field@
            &&& fields[1].0@ != rule.identifier_field@
            &&& spec_lookup_property(rule.properties@, fields[1].0@) is Some
            &&& fields[1].1 is Record
        }),
    ensures
        ({
            let fields = v->Record_1@;
            let rule = spec_lookup_subject(c.subjects@, v->Record_0@)->Some_0;
            let p = spec_lookup_property(rule.properties@, fields[1].0@)->Some_0;
            let (ts, subj) = spec_encode_record(v, c)->Ok_0;
            let child = spec_encode_record(fields[1].1, c);
            &&& child is Ok
            &&& ts == seq![
                TripleV {
                    subject: subj,
                    predicate: rdf_type_iri(),
                    object: ObjectV::Iri(rule.rdf_type@),
                },
            ] + child->Ok_0.0 + seq![
                TripleV {
                    subject: subj,
                    predicate: p.rdf_property@,
                    object: ObjectV::Iri(child->Ok_0.1),
                },
            ]
            &&& child->Ok_0.0.len() >= 1
            &&& child->Ok_0.0[0].subject == child->Ok_0.1
            &&& child->Ok_0.0[0].predicate == rdf_type_iri()
        }),
{
    lemma_single_field_record(v, c);
    let fields = v->Record_1@;
    let rule = spec_lookup_subject(c.subjects@, v->Record_0@)->Some_0;
    let p = spec_lookup_property(rule.properties@, fields[1].0@)->Some_0;
    let (ts, subj) = spec_encode_record(v, c)->Ok_0;
    let fval = fields[1].1;
    assert(!is_literalish(fval));
    lemma_record_shape(fval, c);
    let (cts, csubj) = spec_encode_record(fval, c)->Ok_0;
    let ptt = TripleV {
        subject: subj,
        predicate: rdf_type_iri(),
        object: ObjectV::Iri(rule.rdf_type@),
    };
    let link = TripleV { subject: subj, predicate: p.rdf_property@, object: ObjectV::Iri(csubj) };
    assert(spec_encode_field(subj, p.rdf_property@, fval, c)->Ok_0 == cts + seq![link]);
    assert(ts =~= seq![ptt] + cts + seq![link]);
}

/// The total length of the triples that linking the record elements from
/// index `i` on produces: each element's own triples plus one link triple.
pub open spec fn spec_link_len(es: Seq<Value>, c: SerializerConfig, i: int) -> int
    decreases es.len() - i,
{
    if i < 0 || i >= es.len() {
        0
    } else {
        spec_encode_record(es[i], c)->Ok_0.0.len() + 1 + spec_link_len(es, c, i + 1)
    }
}

proof fn lemma_link_law_from(
    subject: Seq<char>,
    predicate: Seq<char>,
    es: Seq<Value>,
    c: SerializerConfig,
    i: int,
)
    requires
        0 <= i <= es.len(),
        forall|k: int| i <= k < es.len() ==> spec_encode_record(#[trigger] es[k], c) is Ok,
    ensures
        spec_link(subject, predicate, es, c, i) matches Ok(ts) && ts.len() == spec_link_len(
            es,
            c,
            i,
        ) && forall|k: int|
            #![trigger spec_encode_record(es[k], c)]
            i <= k < es.len() ==> exists|ti: int, li: int|
                #![trigger ts[ti], ts[li]]
                {
                    let (cts, csubj) = spec_encode_record(es[k], c)->Ok_0;
                    &&& 0 <= ti < li < ts.len()
                    &&& ts[ti] == cts[0]
                    &&& ts[li] == (TripleV { subject, predicate, object: ObjectV::Iri(csubj) })
                },
    decreases es.len() - i,
{
    if i < es.len() {
        lemma_link_law_from(subject, predicate, es, c, i + 1);
        lemma_record_shape(es[i], c);
        let (cts, csubj) = spec_encode_record(es[i], c)->Ok_0;
        let link = TripleV { subject, predicate, object: ObjectV::Iri(csubj) };
        let rest = spec_link(subject, predicate, es, c, i + 1)->Ok_0;
        let ts = spec_link(subject, predicate, es, c, i)->Ok_0;
        assert(ts == cts + seq![link] + rest);
        let off = cts.len() + 1;
        assert forall|k: int| #![trigger spec_encode_record(es[k], c)] i <= k < es.len() implies exists|ti: int, li: int|
            #![trigger ts[ti], ts[li]]
            {
                let (kts, ksubj) = spec_encode_record(es[k], c)->Ok_0;
                &&& 0 <= ti < li < ts.len()
                &&& ts[ti] == kts[0]
                &&& ts[li] == (TripleV { subject, predicate, object: ObjectV::Iri(ksubj) })
            } by {
            let (kts, ksubj) = spec_encode_record(es[k], c)->Ok_0;
            if k == i {
                assert(ts[0] == cts[0]);
                assert(ts[cts.len() as int] == link);
                assert({
                    let ti = 0;
                    let li = cts.len() as int;
                    0 <= ti < li < ts.len() && ts[ti] == kts[0] && ts[li] == (TripleV {
                        subject,
                        predicate,
                        object: ObjectV::Iri(ksubj),
                    })
                });
            } else {
                let (ti0, li0) = choose|ti0: int, li0: int|
                    #![trigger rest[ti0], rest[li0]]
                    {
                        &&& 0 <= ti0 < li0 < rest.len()
                        &&& rest[ti0] == kts[0]
                        &&& rest[li0] == (TripleV {
                            subject,
                            predicate,
                            object: ObjectV::Iri(ksubj),
                        })
                    };
                assert(ts[off + ti0] == rest[ti0]);
                assert(ts[off + li0] == rest[li0]);
                assert({
                    let ti = off + ti0;
                    let li = off + li0;
                    0 <= ti < li < ts.len() && ts[ti] == kts[0] && ts[li] == (TripleV {
                        subject,
                        predicate,
                        object: ObjectV::Iri(ksubj),
                    })
                });
            }
        }
    }
}

/// Link law: a sequence-of-records field of length `n`, every element
/// encodable, produces the full triple set of each nested record plus one
/// link triple per element — `n` link triples in all — and every nested
/// record's own `rdf:type` triple stands before the link triple that points
/// to it.
pub proof fn lemma_link_law(
    subject: Seq<char>,
    predicate: Seq<char>,
    es: Seq<Value>,
    c: SerializerConfig,
)
    requires
        es.len() > 0,
        forall|k: int| 0 <= k < es.len() ==> (#[trigger] es[k]) is Record,
        forall|k: int| 0 <= k < es.len() ==> spec_encode_record(#[trigger] es[k], c) is Ok,
    ensures
        spec_encode_seq_field(subject, predicate, es, c) matches Ok(ts) && ts.len()
            == spec_link_len(es, c, 0) && forall|k: int|
            #![trigger spec_encode_record(es[k], c)]
            0 <= k < es.len() ==> exists|ti: int, li: int|
                #![trigger ts[ti], ts[li]]
                {
                    let (cts, csubj) = spec_encode_record(es[k], c)->Ok_0;
                    &&& 0 <= ti < li < ts.len()
                    &&& ts[ti] == cts[0]
                    &&& ts[li] == (TripleV { subject, predicate, object: ObjectV::Iri(csubj) })
                },
{
    assert(!is_scalar(es[0]));
    assert(!all_literalish(es));
    assert(all_records(es));
    lemma_link_law_from(subject, predicate, es, c, 0);
}

/// The number of `rdf:type` triples in a stream.
pub open spec fn count_type_triples(ts: Seq<TripleV>) -> int
    decreases ts.len(),
{
    if ts.len() == 0 {
        0
    } else {
        (if ts[0].predicate == rdf_type_iri() {
            1int
        } else {
            0int
        }) + count_type_triples(ts.drop_first())
    }
}

proof fn lemma_count_concat(a: Seq<TripleV>, b: Seq<TripleV>)
    ensures
        count_type_triples(a + b) == count_type_triples(a) + count_type_triples(b),
    decreases a.len(),
{
    if a.len() == 0 {
        assert(a + b =~= b);
    } else {
        lemma_count_concat(a.drop_first(), b);
        assert((a + b).drop_first() =~= a.drop_first() + b);
        assert((a + b)[0] == a[0]);
    }
}

proof fn lemma_count_one(t: TripleV)
    ensures
        count_type_triples(seq![t]) == (if t.predicate == rdf_type_iri() {
            1int
        } else {
            0int
        }),
{
    assert(count_type_triples(Seq::<TripleV>::empty()) == 0);
    assert(seq![t].drop_first() =~= Seq::<TripleV>::empty());
    assert(seq![t][0] == t);
}

proof fn lemma_count_no_type(ts: Seq<TripleV>)
    requires
        forall|j: int| 0 <= j < ts.len() ==> (#[trigger] ts[j]).predicate != rdf_type_iri(),
    ensures
        count_type_triples(ts) == 0,
    decreases ts.len(),
{
    if ts.len() > 0 {
        let rest = ts.drop_first();
        assert forall|j: int| 0 <= j < rest.len() implies (#[trigger] rest[j]).predicate
            != rdf_type_iri() by {
            assert(rest[j] == ts[j + 1]);
        }
        lemma_count_no_type(rest);
    }
}

/// Side condition for the count law: no property rule of the configuration
/// uses the `rdf:type` IRI itself as a predicate.
pub open spec fn no_type_predicate(c: SerializerConfig) -> bool {
    forall|i: int, j: int|
        #![trigger c.subjects@[i].properties@[j]]
        0 <= i < c.subjects@.len() && 0 <= j < c.subjects@[i].properties@.len()
            ==> c.subjects@[i].properties@[j].rdf_property@ != rdf_type_iri()
}

proof fn lemma_lookup_subject_mem(subjects: Seq<SubjectConfig>, name: Seq<char>, i: int)
    requires
        spec_lookup_subject_from(subjects, name, i) is Some,
    ensures
        exists|k: int|
            0 <= k < subjects.len() && #[trigger] subjects[k] == spec_lookup_subject_from(
                subjects,
                name,
                i,
            )->Some_0,
    decreases subjects.len() - i,
{
    if 0 <= i < subjects.len() {
        if subjects[i].struct_name@ == name {
            assert(subjects[i] == spec_lookup_subject_from(subjects, name, i)->Some_0);
        } else {
            lemma_lookup_subject_mem(subjects, name, i + 1);
        }
    }
}

proof fn lemma_lookup_property_mem(properties: Seq<PropertyConfig>, field: Seq<char>, i: int)
    requires
        spec_lookup_property_from(properties, field, i) is Some,
    ensures
        exists|k: int|
            0 <= k < properties.len() && #[trigger] properties[k] == spec_lookup_property_from(
                properties,
                field,
                i,
            )->Some_0,
    decreases properties.len() - i,
{
    if 0 <= i < properties.len() {
        if properties[i].struct_field@ == field {
            assert(properties[i] == spec_lookup_property_from(properties, field, i)->Some_0);
        } else {
            lemma_lookup_property_mem(properties, field, i + 1);
        }
    }
}

/// How many records the traversal of a whole value encodes, assuming it
/// succeeds: one per record entered, including every nested record reached
/// through a mapped field.
pub open spec fn rc_value(v: Value, c: SerializerConfig) -> int
    decreases v, 4int, 0int,
{
    match v {
        Value::Record(_, _) => rc_record(v, c),
        Value::Sequence(es) => rc_top_seq(es@, c, 0),
        Value::Variant(_, vals) => if vals@.len() == 1 {
            rc_value(vals@[0], c)
        } else if vals@.len() == 0 {
            0
        } else {
            rc_top_seq(vals@, c, 0)
        },
        _ => 0,
    }
}

/// The record count of the top-level sequence elements from index `i` on.
pub open spec fn rc_top_seq(es: Seq<Value>, c: SerializerConfig, i: int) -> int
    decreases es, 5int, es.len() - i,
{
    if i < 0 || i >= es.len() {
        0
    } else {
        rc_value(es[i], c) + rc_top_seq(es, c, i + 1)
    }
}

/// The record count of one record: itself plus the records reached through
/// its mapped fields.
pub open spec fn rc_record(v: Value, c: SerializerConfig) -> int
    decreases v, 2int, 0int,
{
    match v {
        Value::Record(name, fields) => match spec_lookup_subject(c.subjects@, name@) {
            None => 0,
            Some(rule) => 1 + rc_fields(fields@, rule, c, 0),
        },
        _ => 0,
    }
}

/// The record count of the fields from index `i` on.
pub open spec fn rc_fields(
    fields: Seq<(String, Value)>,
    rule: SubjectConfig,
    c: SerializerConfig,
    i: int,
) -> int
    decreases fields, 1int, fields.len() - i,
{
    if i < 0 || i >= fields.len() {
        0
    } else {
        (if fields[i].0@ == rule.identifier_field@ {
            0int
        } else {
            match spec_lookup_property(rule.properties@, fields[i].0@) {
                None => 0int,
                Some(_) => rc_field(fields[i].1, c),
            }
        }) + rc_fields(fields, rule, c, i + 1)
    }
}

/// The record count of one mapped field value.
pub open spec fn rc_field(v: Value, c: SerializerConfig) -> int
    decreases v, 3int, 0int,
{
    if is_literalish(v) {
        0
    } else {
        match v {
            Value::Record(_, _) => rc_record(v, c),
            Value::Sequence(es) => rc_seq_field(es@, c),
            Value::Variant(_, vals) => if vals@.len() == 1 {
                rc_field(vals@[0], c)
            } else if vals@.len() == 0 {
                0
            } else {
                rc_seq_field(vals@, c)
            },
            _ => 0,
        }
    }
}

/// The record count of a sequence-valued field.
pub open spec fn rc_seq_field(es: Seq<Value>, c: SerializerConfig) -> int
    decreases es, 6int, 0int,
{
    if all_literalish(es) {
        0
    } else if all_records(es) {
        rc_link(es, c, 0)
    } else {
        0
    }
}

/// The record count of the linked record elements from index `i` on.
pub open spec fn rc_link(es: Seq<Value>, c: SerializerConfig, i: int) -> int
    decreases es, 4int, es.len() - i,
{
    if i < 0 || i >= es.len() {
        0
    } else {
        rc_record(es[i], c) + rc_link(es, c, i + 1)
    }
}

proof fn lemma_count_value(v: Value, c: SerializerConfig)
    requires
        no_type_predicate(c),
        spec_encode_value(v, c) is Ok,
    ensures
        count_type_triples(spec_encode_value(v, c)->Ok_0) == rc_value(v, c),
    decreases v, 4int, 0int,
{
    match v {
        Value::Record(_, _) => {
            lemma_count_record(v, c);
        },
        Value::Sequence(es) => {
            lemma_count_top_seq(es@, c, 0);
        },
        Value::Variant(_, vals) => {
            if vals@.len() == 1 {
                lemma_count_value(vals@[0], c);
            } else if vals@.len() > 1 {
                lemma_count_top_seq(vals@, c, 0);
            }
        },
        _ => {},
    }
}

proof fn lemma_count_top_seq(es: Seq<Value>, c: SerializerConfig, i: int)
    requires
        no_type_predicate(c),
        spec_encode_top_seq(es, c, i) is Ok,
    ensures
        count_type_triples(spec_encode_top_seq(es, c, i)->Ok_0) == rc_top_seq(es, c, i),
    decreases es, 5int, es.len() - i,
{
    if 0 <= i < es.len() {
        lemma_count_value(es[i], c);
        lemma_count_top_seq(es, c, i + 1);
        lemma_count_concat(
            spec_encode_value(es[i], c)->Ok_0,
            spec_encode_top_seq(es, c, i + 1)->Ok_0,
        );
    }
}

proof fn lemma_count_record(v: Value, c: SerializerConfig)
    requires
        no_type_predicate(c),
        spec_encode_record(v, c) is Ok,
    ensures
        count_type_triples(spec_encode_record(v, c)->Ok_0.0) == rc_record(v, c),
    decreases v, 2int, 0int,
{
    match v {
        Value::Record(name, fields) => {
            let rule = spec_lookup_subject(c.subjects@, name@)->Some_0;
            let idlit = spec_scalar_literal(spec_find_field(fields@, rule.identifier_field@)->Some_0)->Some_0;
            let subject = rule.identifier_prefix@ + idlit.lexical();
            let tt = TripleV {
                subject,
                predicate: rdf_type_iri(),
                object: ObjectV::Iri(rule.rdf_type@),
            };
            lemma_lookup_subject_mem(c.subjects@, name@, 0);
            lemma_count_fields(fields@, rule, subject, c, 0);
            lemma_count_one(tt);
            lemma_count_concat(seq![tt], spec_encode_fields(fields@, rule, subject, c, 0)->Ok_0);
        },
        _ => {},
    }
}

proof fn lemma_count_fields(
    fields: Seq<(String, Value)>,
    rule: SubjectConfig,
    subject: Seq<char>,
    c: SerializerConfig,
    i: int,
)
    requires
        no_type_predicate(c),
        exists|k: int|
            0 <= k < c.subjects@.len() && #[trigger] c.subjects@[k] == rule,
        spec_encode_fields(fields, rule, subject, c, i) is Ok,
    ensures
        count_type_triples(spec_encode_fields(fields, rule, subject, c, i)->Ok_0) == rc_fields(
            fields,
            rule,
            c,
            i,
        ),
    decreases fields, 1int, fields.len() - i,
{
    if 0 <= i < fields.len() {
        let hts = if fields[i].0@ == rule.identifier_field@ {
            Seq::<TripleV>::empty()
        } else {
            match spec_lookup_property(rule.properties@, fields[i].0@) {
                None => Seq::<TripleV>::empty(),
                Some(p) => spec_encode_field(subject, p.rdf_property@, fields[i].1, c)->Ok_0,
            }
        };
        if fields[i].0@ != rule.identifier_field@ && spec_lookup_property(
            rule.properties@,
            fields[i].0@,
        ) is Some {
            let p = spec_lookup_property(rule.properties@, fields[i].0@)->Some_0;
            let k = choose|k: int|
                0 <= k < c.subjects@.len() && #[trigger] c.subjects@[k] == rule;
            lemma_lookup_property_mem(rule.properties@, fields[i].0@, 0);
            let j = choose|j: int|
                0 <= j < rule.properties@.len() && #[trigger] rule.properties@[j] == p;
            assert(c.subjects@[k].properties@[j] == p);
            assert(p.rdf_property@ != rdf_type_iri());
            lemma_count_field(subject, p.rdf_property@, fields[i].1, c);
        }
        lemma_count_fields(fields, rule, subject, c, i + 1);
        lemma_count_concat(hts, spec_encode_fields(fields, rule, subject, c, i + 1)->Ok_0);
    }
}

proof fn lemma_count_field(
    subject: Seq<char>,
    predicate: Seq<char>,
    v: Value,
    c: SerializerConfig,
)
    requires
        no_type_predicate(c),
        predicate != rdf_type_iri(),
        spec_encode_field(subject, predicate, v, c) is Ok,
    ensures
        count_type_triples(spec_encode_field(subject, predicate, v, c)->Ok_0) == rc_field(v, c),
    decreases v, 3int, 0int,
{
    if is_literalish(v) {
        lemma_literal_triples_shape(subject, predicate, v);
        lemma_count_no_type(spec_literal_triples(subject, predicate, v)->Ok_0);
    } else {
        match v {
            Value::Record(_, _) => {
                lemma_count_record(v, c);
                let (cts, child) = spec_encode_record(v, c)->Ok_0;
                let link = TripleV { subject, predicate, object: ObjectV::Iri(child) };
                lemma_count_one(link);
                lemma_count_concat(cts, seq![link]);
            },
            Value::Sequence(es) => {
                lemma_count_seq_field(subject, predicate, es@, c);
            },
            Value::Variant(vn, vals) => {
                if vals@.len() == 1 {
                    lemma_count_field(subject, predicate, vals@[0], c);
                } else if vals@.len() == 0 {
                    lemma_count_one(
                        TripleV {
                            subject,
                            predicate,
                            object: ObjectV::Literal(
                                crate::triple::LiteralV::Typed {
                                    value: vn@,
                                    datatype: crate::triple::xsd_string_iri(),
                                },
                            ),
                        },
                    );
                } else {
                    lemma_count_seq_field(subject, predicate, vals@, c);
                }
            },
            _ => {},
        }
    }
}

proof fn lemma_count_seq_field(
    subject: Seq<char>,
    predicate: Seq<char>,
    es: Seq<Value>,
    c: SerializerConfig,
)
    requires
        no_type_predicate(c),
        predicate != rdf_type_iri(),
        spec_encode_seq_field(subject, predicate, es, c) is Ok,
    ensures
        count_type_triples(spec_encode_seq_field(subject, predicate, es, c)->Ok_0) == rc_seq_field(
            es,
            c,
        ),
    decreases es, 6int, 0int,
{
    if all_literalish(es) {
        lemma_flatten_shape(subject, predicate, es, 0);
        lemma_count_no_type(spec_flatten(subject, predicate, es, 0)->Ok_0);
    } else if all_records(es) {
        lemma_count_link(subject, predicate, es, c, 0);
    }
}

proof fn lemma_count_link(
    subject: Seq<char>,
    predicate: Seq<char>,
    es: Seq<Value>,
    c: SerializerConfig,
    i: int,
)
    requires
        no_type_predicate(c),
        predicate != rdf_type_iri(),
        spec_link(subject, predicate, es, c, i) is Ok,
    ensures
        count_type_triples(spec_link(subject, predicate, es, c, i)->Ok_0) == rc_link(es, c, i),
    decreases es, 4int, es.len() - i,
{
    if 0 <= i < es.len() {
        lemma_count_record(es[i], c);
        let (cts, child) = spec_encode_record(es[i], c)->Ok_0;
        let link = TripleV { subject, predicate, object: ObjectV::Iri(child) };
        lemma_count_one(link);
        lemma_count_concat(cts, seq![link]);
        lemma_count_link(subject, predicate, es, c, i + 1);
        lemma_count_concat(cts + seq![link], spec_link(subject, predicate, es, c, i + 1)->Ok_0);
    }
}

/// Whether an error is one of the traversal's classified kinds.
pub open spec fn classified(e: ErrorV) -> bool {
    ||| e is MissingSubjectRule
    ||| e is InvalidIdentifier
    ||| e is UnsupportedValueShape
    ||| e is NoActiveSubject
}

proof fn lemma_classified_lang(
    subject: Seq<char>,
    predicate: Seq<char>,
    entries: Seq<(String, String)>,
    i: int,
)
    ensures
        spec_lang_triples(subject, predicate, entries, i) matches Err(e) ==> classified(e),
    decreases entries.len() - i,
{
    if 0 <= i < entries.len() {
        lemma_classified_lang(subject, predicate, entries, i + 1);
    }
}

proof fn lemma_classified_value(v: Value, c: SerializerConfig)
    ensures
        spec_encode_value(v, c) matches Err(e) ==> classified(e),
    decreases v, 4int, 0int,
{
    match v {
        Value::Record(_, _) => {
            lemma_classified_record(v, c);
        },
        Value::Sequence(es) => {
            lemma_classified_top_seq(es@, c, 0);
        },
        Value::Variant(_, vals) => {
            if vals@.len() == 1 {
                lemma_classified_value(vals@[0], c);
            } else if vals@.len() > 1 {
                lemma_classified_top_seq(vals@, c, 0);
            }
        },
        _ => {},
    }
}

proof fn lemma_classified_top_seq(es: Seq<Value>, c: SerializerConfig, i: int)
    ensures
        spec_encode_top_seq(es, c, i) matches Err(e) ==> classified(e),
    decreases es, 5int, es.len() - i,
{
    if 0 <= i < es.len() {
        lemma_classified_value(es[i], c);
        lemma_classified_top_seq(es, c, i + 1);
    }
}

proof fn lemma_classified_record(v: Value, c: SerializerConfig)
    ensures
        spec_encode_record(v, c) matches Err(e) ==> classified(e),
    decreases v, 2int, 0int,
{
    match v {
        Value::Record(name, fields) => {
            match spec_lookup_subject(c.subjects@, name@) {
                None => {},
                Some(rule) => {
                    let ff = spec_find_field(fields@, rule.identifier_field@);
                    if ff is Some && spec_scalar_literal(ff->Some_0) is Some {
                        let idlit = spec_scalar_literal(ff->Some_0)->Some_0;
                        let subject = rule.identifier_prefix@ + idlit.lexical();
                        lemma_classified_fields(fields@, rule, subject, c, 0);
                    }
                },
            }
        },
        _ => {},
    }
}

proof fn lemma_classified_fields(
    fields: Seq<(String, Value)>,
    rule: SubjectConfig,
    subject: Seq<char>,
    c: SerializerConfig,
    i: int,
)
    ensures
        spec_encode_fields(fields, rule, subject, c, i) matches Err(e) ==> classified(e),
    decreases fields, 1int, fields.len() - i,
{
    if 0 <= i < fields.len() {
        if fields[i].0@ != rule.identifier_field@ {
            match spec_lookup_property(rule.properties@, fields[i].0@) {
                None => {},
                Some(p) => {
                    lemma_classified_field(subject, p.rdf_property@, fields[i].1, c);
                },
            }
        }
        lemma_classified_fields(fields, rule, subject, c, i + 1);
    }
}

proof fn lemma_classified_field(
    subject: Seq<char>,
    predicate: Seq<char>,
    v: Value,
    c: SerializerConfig,
)
    ensures
        spec_encode_field(subject, predicate, v, c) matches Err(e) ==> classified(e),
    decreases v, 3int, 0int,
{
    if is_literalish(v) {
        match v {
            Value::LangText(entries) => {
                lemma_classified_lang(subject, predicate, entries@, 0);
            },
            _ => {},
        }
    } else {
        match v {
            Value::Record(_, _) => {
                lemma_classified_record(v, c);
            },
            Value::Sequence(es) => {
                lemma_classified_seq_field(subject, predicate, es@, c);
            },
            Value::Variant(_, vals) => {
                if vals@.len() == 1 {
                    lemma_classified_field(subject, predicate, vals@[0], c);
                } else if vals@.len() > 1 {
                    lemma_classified_seq_field(subject, predicate, vals@, c);
                }
            },
            _ => {},
        }
    }
}

proof fn lemma_classified_seq_field(
    subject: Seq<char>,
    predicate: Seq<char>,
    es: Seq<Value>,
    c: SerializerConfig,
)
    ensures
        spec_encode_seq_field(subject, predicate, es, c) matches Err(e) ==> classified(e),
    decreases es, 6int, 0int,
{
    if all_literalish(es) {
        lemma_classified_flatten(subject, predicate, es, 0);
    } else if all_records(es) {
        lemma_classified_link(subject, predicate, es, c, 0);
    }
}

proof fn lemma_classified_flatten(
    subject: Seq<char>,
    predicate: Seq<char>,
    es: Seq<Value>,
    i: int,
)
    ensures
        spec_flatten(subject, predicate, es, i) matches Err(e) ==> classified(e),
    decreases es, 0int, es.len() - i,
{
    if 0 <= i < es.len() {
        match es[i] {
            Value::LangText(entries) => {
                lemma_classified_lang(subject, predicate, entries@, 0);
            },
            _ => {},
        }
        lemma_classified_flatten(subject, predicate, es, i + 1);
    }
}

proof fn lemma_classified_link(
    subject: Seq<char>,
    predicate: Seq<char>,
    es: Seq<Value>,
    c: SerializerConfig,
    i: int,
)
    ensures
        spec_link(subject, predicate, es, c, i) matches Err(e) ==> classified(e),
    decreases es, 4int, es.len() - i,
{
    if 0 <= i < es.len() {
        lemma_classified_record(es[i], c);
        lemma_classified_link(subject, predicate, es, c, i + 1);
    }
}

/// Every failure of the traversal is a classified error: one of
/// `MissingSubjectRule`, `InvalidIdentifier`, `UnsupportedValueShape` or
/// `NoActiveSubject`, never a bare message.
pub proof fn lemma_errors_classified(v: Value, c: SerializerConfig)
    ensures
        spec_encode_value(v, c) matches Err(e) ==> classified(e),
{
    lemma_classified_value(v, c);
}

/// Whether the traversal of a whole value would reach a record whose type
/// name has no subject rule.
pub open spec fn vm_value(v: Value, c: SerializerConfig) -> bool
    decreases v, 4int, 0int,
{
    match v {
        Value::Record(_, _) => vm_record(v, c),
        Value::Sequence(es) => vm_top_seq(es@, c, 0),
        Value::Variant(_, vals) => if vals@.len() == 1 {
            vm_value(vals@[0], c)
        } else if vals@.len() == 0 {
            false
        } else {
            vm_top_seq(vals@, c, 0)
        },
        _ => false,
    }
}

/// Whether any top-level sequence element from index `i` on reaches a record
/// type without a rule.
pub open spec fn vm_top_seq(es: Seq<Value>, c: SerializerConfig, i: int) -> bool
    decreases es, 5int, es.len() - i,
{
    0 <= i < es.len() && (vm_value(es[i], c) || vm_top_seq(es, c, i + 1))
}

/// Whether a record's own type lacks a rule, or one of its mapped fields
/// reaches such a type.
pub open spec fn vm_record(v: Value, c: SerializerConfig) -> bool
    decreases v, 2int, 0int,
{
    match v {
        Value::Record(name, fields) => match spec_lookup_subject(c.subjects@, name@) {
            None => true,
            Some(rule) => vm_fields(fields@, rule, c, 0),
        },
        _ => false,
    }
}

/// Whether any mapped field from index `i` on reaches a record type without
/// a rule.
pub open spec fn vm_fields(
    fields: Seq<(String, Value)>,
    rule: SubjectConfig,
    c: SerializerConfig,
    i: int,
) -> bool
    decreases fields, 1int, fields.len() - i,
{
    0 <= i < fields.len() && ({
        (if fields[i].0@ == rule.identifier_field@ {
            false
        } else {
            match spec_lookup_property(rule.properties@, fields[i].0@) {
                None => false,
                Some(_) => vm_field(fields[i].1, c),
            }
        }) || vm_fields(fields, rule, c, i + 1)
    })
}

/// Whether one mapped field value reaches a record type without a rule.
pub open spec fn vm_field(v: Value, c: SerializerConfig) -> bool
    decreases v, 3int, 0int,
{
    if is_literalish(v) {
        false
    } else {
        match v {
            Value::Record(_, _) => vm_record(v, c),
            Value::Sequence(es) => vm_seq_field(es@, c),
            Value::Variant(_, vals) => if vals@.len() == 1 {
                vm_field(vals@[0], c)
            } else if vals@.len() == 0 {
                false
            } else {
                vm_seq_field(vals@, c)
            },
            _ => false,
        }
    }
}

/// Whether a sequence-valued field reaches a record type without a rule.
pub open spec fn vm_seq_field(es: Seq<Value>, c: SerializerConfig) -> bool
    decreases es, 6int, 0int,
{
    if all_literalish(es) {
        false
    } else if all_records(es) {
        vm_link(es, c, 0)
    } else {
        false
    }
}

/// Whether any linked record element from index `i` on reaches a record type
/// without a rule.
pub open spec fn vm_link(es: Seq<Value>, c: SerializerConfig, i: int) -> bool
    decreases es, 4int, es.len() - i,
{
    0 <= i < es.len() && (vm_record(es[i], c) || vm_link(es, c, i + 1))
}

/// Whether a multilingual text carries only valid language codes; true of
/// every other value.
pub open spec fn lit_ok(v: Value) -> bool {
    match v {
        Value::LangText(entries) => forall|k: int|
            0 <= k < entries@.len() ==> crate::value::valid_lang_code(
                (#[trigger] entries@[k]).0@,
            ),
        _ => true,
    }
}

/// Well-shapedness of a whole value apart from missing subject rules: every
/// record the traversal reaches either has no rule (the one permitted
/// defect) or has a present, scalar identifier; multilingual texts carry
/// valid language codes; sequences are homogeneous; only records stand at
/// the top level.
pub open spec fn ws_value(v: Value, c: SerializerConfig) -> bool
    decreases v, 4int, 0int,
{
    match v {
        Value::Record(_, _) => ws_record(v, c),
        Value::Sequence(es) => ws_top_seq(es@, c, 0),
        Value::Variant(_, vals) => if vals@.len() == 1 {
            ws_value(vals@[0], c)
        } else if vals@.len() == 0 {
            false
        } else {
            ws_top_seq(vals@, c, 0)
        },
        _ => false,
    }
}

/// Well-shapedness of the top-level sequence elements from index `i` on.
pub open spec fn ws_top_seq(es: Seq<Value>, c: SerializerConfig, i: int) -> bool
    decreases es, 5int, es.len() - i,
{
    !(0 <= i < es.len()) || (ws_value(es[i], c) && ws_top_seq(es, c, i + 1))
}

/// Well-shapedness of one record apart from missing subject rules.
pub open spec fn ws_record(v: Value, c: SerializerConfig) -> bool
    decreases v, 2int, 0int,
{
    match v {
        Value::Record(name, fields) => match spec_lookup_subject(c.subjects@, name@) {
            None => true,
            Some(rule) => {
                &&& spec_find_field(fields@, rule.identifier_field@) is Some
                &&& spec_scalar_literal(
                    spec_find_field(fields@, rule.identifier_field@)->Some_0,
                ) is Some
                &&& ws_fields(fields@, rule, c, 0)
            },
        },
        _ => false,
    }
}

/// Well-shapedness of the mapped fields from index `i` on.
pub open spec fn ws_fields(
    fields: Seq<(String, Value)>,
    rule: SubjectConfig,
    c: SerializerConfig,
    i: int,
) -> bool
    decreases fields, 1int, fields.len() - i,
{
    !(0 <= i < fields.len()) || ({
        (if fields[i].0@ == rule.identifier_field@ {
            true
        } else {
            match spec_lookup_property(rule.properties@, fields[i].0@) {
                None => true,
                Some(_) => ws_field(fields[i].1, c),
            }
        }) && ws_fields(fields, rule, c, i + 1)
    })
}

/// Well-shapedness of one mapped field value.
pub open spec fn ws_field(v: Value, c: SerializerConfig) -> bool
    decreases v, 3int, 0int,
{
    if is_literalish(v) {
        lit_ok(v)
    } else {
        match v {
            Value::Record(_, _) => ws_record(v, c),
            Value::Sequence(es) => ws_seq_field(es@, c),
            Value::Variant(_, vals) => if vals@.len() == 1 {
                ws_field(vals@[0], c)
            } else if vals@.len() == 0 {
                true
            } else {
                ws_seq_field(vals@, c)
            },
            _ => false,
        }
    }
}

/// Well-shapedness of a sequence-valued field: homogeneous, with valid
/// language codes throughout.
pub open spec fn ws_seq_field(es: Seq<Value>, c: SerializerConfig) -> bool
    decreases es, 6int, 0int,
{
    if all_literalish(es) {
        forall|k: int| 0 <= k < es.len() ==> lit_ok(#[trigger] es[k])
    } else if all_records(es) {
        ws_link(es, c, 0)
    } else {
        false
    }
}

/// Well-shapedness of the linked record elements from index `i` on.
pub open spec fn ws_link(es: Seq<Value>, c: SerializerConfig, i: int) -> bool
    decreases es, 4int, es.len() - i,
{
    !(0 <= i < es.len()) || (ws_record(es[i], c) && ws_link(es, c, i + 1))
}

proof fn lemma_lang_ok(subject: Seq<char>, predicate: Seq<char>, entries: Seq<(String, String)>, i: int)
    requires
        forall|k: int| i <= k < entries.len() ==> crate::value::valid_lang_code(
            (#[trigger] entries[k]).0@,
        ),
    ensures
        spec_lang_triples(subject, predicate, entries, i) is Ok,
    decreases entries.len() - i,
{
    if 0 <= i < entries.len() {
        lemma_lang_ok(subject, predicate, entries, i + 1);
    }
}

proof fn lemma_lit_ok(subject: Seq<char>, predicate: Seq<char>, v: Value)
    requires
        lit_ok(v),
    ensures
        spec_literal_triples(subject, predicate, v) is Ok,
{
    match v {
        Value::LangText(entries) => {
            lemma_lang_ok(subject, predicate, entries@, 0);
        },
        _ => {},
    }
}

proof fn lemma_flatten_ok(subject: Seq<char>, predicate: Seq<char>, es: Seq<Value>, i: int)
    requires
        forall|k: int| i <= k < es.len() ==> lit_ok(#[trigger] es[k]),
    ensures
        spec_flatten(subject, predicate, es, i) is Ok,
    decreases es.len() - i,
{
    if 0 <= i < es.len() {
        lemma_lit_ok(subject, predicate, es[i]);
        lemma_flatten_ok(subject, predicate, es, i + 1);
    }
}

proof fn lemma_ws_value(v: Value, c: SerializerConfig)
    requires
        ws_value(v, c),
    ensures
        spec_encode_value(v, c) is Ok || spec_encode_value(v, c) matches Err(
            ErrorV::MissingSubjectRule(_),
        ),
    decreases v, 4int, 0int,
{
    match v {
        Value::Record(_, _) => {
            lemma_ws_record(v, c);
        },
        Value::Sequence(es) => {
            lemma_ws_top_seq(es@, c, 0);
        },
        Value::Variant(_, vals) => {
            if vals@.len() == 1 {
                lemma_ws_value(vals@[0], c);
            } else if vals@.len() > 1 {
                lemma_ws_top_seq(vals@, c, 0);
            }
        },
        _ => {},
    }
}

proof fn lemma_ws_top_seq(es: Seq<Value>, c: SerializerConfig, i: int)
    requires
        ws_top_seq(es, c, i),
    ensures
        spec_encode_top_seq(es, c, i) is Ok || spec_encode_top_seq(es, c, i) matches Err(
            ErrorV::MissingSubjectRule(_),
        ),
    decreases es, 5int, es.len() - i,
{
    if 0 <= i < es.len() {
        lemma_ws_value(es[i], c);
        lemma_ws_top_seq(es, c, i + 1);
    }
}

proof fn lemma_ws_record(v: Value, c: SerializerConfig)
    requires
        ws_record(v, c),
        v is Record,
    ensures
        spec_encode_record(v, c) is Ok || spec_encode_record(v, c) matches Err(
            ErrorV::MissingSubjectRule(_),
        ),
    decreases v, 2int, 0int,
{
    match v {
        Value::Record(name, fields) => {
            match spec_lookup_subject(c.subjects@, name@) {
                None => {},
                Some(rule) => {
                    let ff = spec_find_field(fields@, rule.identifier_field@);
                    if ff is Some && spec_scalar_literal(ff->Some_0) is Some {
                        let idlit = spec_scalar_literal(ff->Some_0)->Some_0;
                        let subject = rule.identifier_prefix@ + idlit.lexical();
                        lemma_ws_fields(fields@, rule, subject, c, 0);
                    }
                },
            }
        },
        _ => {},
    }
}

proof fn lemma_ws_fields(
    fields: Seq<(String, Value)>,
    rule: SubjectConfig,
    subject: Seq<char>,
    c: SerializerConfig,
    i: int,
)
    requires
        ws_fields(fields, rule, c, i),
    ensures
        spec_encode_fields(fields, rule, subject, c, i) is Ok || spec_encode_fields(
            fields,
            rule,
            subject,
            c,
            i,
        ) matches Err(ErrorV::MissingSubjectRule(_)),
    decreases fields, 1int, fields.len() - i,
{
    if 0 <= i < fields.len() {
        if fields[i].0@ != rule.identifier_field@ {
            match spec_lookup_property(rule.properties@, fields[i].0@) {
                None => {},
                Some(p) => {
                    lemma_ws_field(subject, p.rdf_property@, fields[i].1, c);
                },
            }
        }
        lemma_ws_fields(fields, rule, subject, c, i + 1);
    }
}

proof fn lemma_ws_field(subject: Seq<char>, predicate: Seq<char>, v: Value, c: SerializerConfig)
    requires
        ws_field(v, c),
    ensures
        spec_encode_field(subject, predicate, v, c) is Ok || spec_encode_field(
            subject,
            predicate,
            v,
            c,
        ) matches Err(ErrorV::MissingSubjectRule(_)),
    decreases v, 3int, 0int,
{
    if is_literalish(v) {
        lemma_lit_ok(subject, predicate, v);
    } else {
        match v {
            Value::Record(_, _) => {
                lemma_ws_record(v, c);
            },
            Value::Sequence(es) => {
                lemma_ws_seq_field(subject, predicate, es@, c);
            },
            Value::Variant(_, vals) => {
                if vals@.len() == 1 {
                    lemma_ws_field(subject, predicate, vals@[0], c);
                } else if vals@.len() > 1 {
                    lemma_ws_seq_field(subject, predicate, vals@, c);
                }
            },
            _ => {},
        }
    }
}

proof fn lemma_ws_seq_field(
    subject: Seq<char>,
    predicate: Seq<char>,
    es: Seq<Value>,
    c: SerializerConfig,
)
    requires
        ws_seq_field(es, c),
    ensures
        spec_encode_seq_field(subject, predicate, es, c) is Ok || spec_encode_seq_field(
            subject,
            predicate,
            es,
            c,
        ) matches Err(ErrorV::MissingSubjectRule(_)),
    decreases es, 6int, 0int,
{
    if all_literalish(es) {
        lemma_flatten_ok(subject, predicate, es, 0);
    } else if all_records(es) {
        lemma_ws_link(subject, predicate, es, c, 0);
    }
}

proof fn lemma_ws_link(
    subject: Seq<char>,
    predicate: Seq<char>,
    es: Seq<Value>,
    c: SerializerConfig,
    i: int,
)
    requires
        ws_link(es, c, i),
        all_records(es),
    ensures
        spec_link(subject, predicate, es, c, i) is Ok || spec_link(subject, predicate, es, c, i)
            matches Err(ErrorV::MissingSubjectRule(_)),
    decreases es, 4int, es.len() - i,
{
    if 0 <= i < es.len() {
        lemma_ws_record(es[i], c);
        lemma_ws_link(subject, predicate, es, c, i + 1);
    }
}

proof fn lemma_ok_no_missing_value(v: Value, c: SerializerConfig)
    requires
        spec_encode_value(v, c) is Ok,
    ensures
        !vm_value(v, c),
    decreases v, 4int, 0int,
{
    match v {
        Value::Record(_, _) => {
            lemma_ok_no_missing_record(v, c);
        },
        Value::Sequence(es) => {
            lemma_ok_no_missing_top_seq(es@, c, 0);
        },
        Value::Variant(_, vals) => {
            if vals@.len() == 1 {
                lemma_ok_no_missing_value(vals@[0], c);
            } else if vals@.len() > 1 {
                lemma_ok_no_missing_top_seq(vals@, c, 0);
            }
        },
        _ => {},
    }
}

proof fn lemma_ok_no_missing_top_seq(es: Seq<Value>, c: SerializerConfig, i: int)
    requires
        spec_encode_top_seq(es, c, i) is Ok,
    ensures
        !vm_top_seq(es, c, i),
    decreases es, 5int, es.len() - i,
{
    if 0 <= i < es.len() {
        lemma_ok_no_missing_value(es[i], c);
        lemma_ok_no_missing_top_seq(es, c, i + 1);
    }
}

proof fn lemma_ok_no_missing_record(v: Value, c: SerializerConfig)
    requires
        spec_encode_record(v, c) is Ok,
    ensures
        !vm_record(v, c),
    decreases v, 2int, 0int,
{
    match v {
        Value::Record(name, fields) => {
            let rule = spec_lookup_subject(c.subjects@, name@)->Some_0;
            let idlit = spec_scalar_literal(
                spec_find_field(fields@, rule.identifier_field@)->Some_0,
            )->Some_0;
            let subject = rule.identifier_prefix@ + idlit.lexical();
            lemma_ok_no_missing_fields(fields@, rule, subject, c, 0);
        },
        _ => {},
    }
}

proof fn lemma_ok_no_missing_fields(
    fields: Seq<(String, Value)>,
    rule: SubjectConfig,
    subject: Seq<char>,
    c: SerializerConfig,
    i: int,
)
    requires
        spec_encode_fields(fields, rule, subject, c, i) is Ok,
    ensures
        !vm_fields(fields, rule, c, i),
    decreases fields, 1int, fields.len() - i,
{
    if 0 <= i < fields.len() {
        if fields[i].0@ != rule.identifier_field@ {
            match spec_lookup_property(rule.properties@, fields[i].0@) {
                None => {},
                Some(p) => {
                    lemma_ok_no_missing_field(subject, p.rdf_property@, fields[i].1, c);
                },
            }
        }
        lemma_ok_no_missing_fields(fields, rule, subject, c, i + 1);
    }
}

proof fn lemma_ok_no_missing_field(
    subject: Seq<char>,
    predicate: Seq<char>,
    v: Value,
    c: SerializerConfig,
)
    requires
        spec_encode_field(subject, predicate, v, c) is Ok,
    ensures
        !vm_field(v, c),
    decreases v, 3int, 0int,
{
    if !is_literalish(v) {
        match v {
            Value::Record(_, _) => {
                lemma_ok_no_missing_record(v, c);
            },
            Value::Sequence(es) => {
                lemma_ok_no_missing_seq_field(subject, predicate, es@, c);
            },
            Value::Variant(_, vals) => {
                if vals@.len() == 1 {
                    lemma_ok_no_missing_field(subject, predicate, vals@[0], c);
                } else if vals@.len() > 1 {
                    lemma_ok_no_missing_seq_field(subject, predicate, vals@, c);
                }
            },
            _ => {},
        }
    }
}

proof fn lemma_ok_no_missing_seq_field(
    subject: Seq<char>,
    predicate: Seq<char>,
    es: Seq<Value>,
    c: SerializerConfig,
)
    requires
        spec_encode_seq_field(subject, predicate, es, c) is Ok,
    ensures
        !vm_seq_field(es, c),
    decreases es, 6int, 0int,
{
    if !all_literalish(es) && all_records(es) {
        lemma_ok_no_missing_link(subject, predicate, es, c, 0);
    }
}

proof fn lemma_ok_no_missing_link(
    subject: Seq<char>,
    predicate: Seq<char>,
    es: Seq<Value>,
    c: SerializerConfig,
    i: int,
)
    requires
        spec_link(subject, predicate, es, c, i) is Ok,
    ensures
        !vm_link(es, c, i),
    decreases es, 4int, es.len() - i,
{
    if 0 <= i < es.len() {
        lemma_ok_no_missing_record(es[i], c);
        lemma_ok_no_missing_link(subject, predicate, es, c, i + 1);
    }
}

/// Missing-mapping law: if the traversal reaches a record whose type is
/// absent from the configuration's subject rules ([`vm_value`]), and the
/// value is otherwise well shaped ([`ws_value`]), then the encode call fails
/// with `MissingSubjectRule`.  Since the encoder renders text only from a
/// fully successful triple stream, nothing is emitted in that case.
pub proof fn lemma_missing_mapping(v: Value, c: SerializerConfig)
    requires
        ws_value(v, c),
        vm_value(v, c),
    ensures
        spec_encode_value(v, c) matches Err(ErrorV::MissingSubjectRule(_)),
{
    lemma_ws_value(v, c);
    if spec_encode_value(v, c) is Ok {
        lemma_ok_no_missing_value(v, c);
        assert(false);
    }
}

/// Every record instance the encoder visits contributes exactly one
/// `rdf:type` triple: a successful encoding holds as many `rdf:type` triples
/// as the traversal encodes records ([`rc_value`]), so no record is silently
/// dropped; an unsuccessful one returns a classified error instead.  Side
/// condition: no property rule may use the `rdf:type` IRI as its predicate.
pub proof fn lemma_type_triple_count(v: Value, c: SerializerConfig)
    requires
        no_type_predicate(c),
        spec_encode_value(v, c) is Ok,
    ensures
        count_type_triples(spec_encode_value(v, c)->Ok_0) == rc_value(v, c),
{
    lemma_count_value(v, c);
}

} // verus!
