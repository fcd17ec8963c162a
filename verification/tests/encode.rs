use rdf_encode::{
    to_string, to_triples, Error, Literal, Object, PropertyConfig, SerializerConfig,
    SubjectConfig, Value,
};

const RDF_TYPE: &str = "http://www.w3.org/1999/02/22-rdf-syntax-ns#type";

fn subject(
    name: &str,
    rdf_type: &str,
    id_field: &str,
    prefix: &str,
    props: &[(&str, &str)],
) -> SubjectConfig {
    SubjectConfig {
        struct_name: name.to_string(),
        rdf_type: rdf_type.to_string(),
        identifier_field: id_field.to_string(),
        identifier_prefix: prefix.to_string(),
        properties: props
            .iter()
            .map(|(f, p)| PropertyConfig {
                struct_field: f.to_string(),
                rdf_property: p.to_string(),
            })
            .collect(),
    }
}

fn config(subjects: Vec<SubjectConfig>) -> SerializerConfig {
    SerializerConfig {
        base_iri: String::new(),
        namespaces: Vec::new(),
        subjects,
    }
}

fn record(name: &str, fields: Vec<(&str, Value)>) -> Value {
    Value::Record(
        name.to_string(),
        fields.into_iter().map(|(f, v)| (f.to_string(), v)).collect(),
    )
}

#[test]
fn test_simple_struct() {
    let config = config(vec![subject(
        "Test",
        "https://example.org/ns#Test",
        "id",
        "https://ark.dasch.swiss/ark:/72163/1/",
        &[],
    )]);
    let test = record("Test", vec![("id", Value::Str("my-id".to_string()))]);
    let expected = "<https://ark.dasch.swiss/ark:/72163/1/my-id> <http://www.w3.org/1999/02/22-rdf-syntax-ns#type> <https://example.org/ns#Test> .\n";
    assert_eq!(to_string(&test, &config).unwrap(), expected);
}

#[test]
fn single_record_scenario() {
    let config = config(vec![subject(
        "Test",
        "https://example.org/ns#Test",
        "id",
        "https://ark.example/ark:/1/",
        &[],
    )]);
    let v = record("Test", vec![("id", Value::Str("my-id".to_string()))]);
    let ts = to_triples(&v, &config).unwrap();
    assert_eq!(ts.len(), 1);
    assert_eq!(ts[0].subject, "https://ark.example/ark:/1/my-id");
    assert_eq!(ts[0].predicate, RDF_TYPE);
    match &ts[0].object {
        Object::Iri(iri) => assert_eq!(iri, "https://example.org/ns#Test"),
        _ => panic!("expected an IRI object"),
    }
    let expected = "<https://ark.example/ark:/1/my-id> <http://www.w3.org/1999/02/22-rdf-syntax-ns#type> <https://example.org/ns#Test> .\n";
    assert_eq!(to_string(&v, &config).unwrap(), expected);
}

#[test]
fn multilingual_text_scenario() {
    let config = config(vec![subject(
        "City",
        "https://ex.org/ns#City",
        "id",
        "https://ex.org/",
        &[("name", "https://ex.org/ns#hasName")],
    )]);
    let v = record(
        "City",
        vec![
            ("id", Value::Str("c1".to_string())),
            (
                "name",
                Value::LangText(vec![
                    ("en".to_string(), "Bern".to_string()),
                    ("fr".to_string(), "Berne".to_string()),
                ]),
            ),
        ],
    );
    let ts = to_triples(&v, &config).unwrap();
    assert_eq!(ts.len(), 3);
    assert_eq!(ts[1].subject, ts[2].subject);
    assert_eq!(ts[1].predicate, "https://ex.org/ns#hasName");
    assert_eq!(ts[2].predicate, "https://ex.org/ns#hasName");
    match &ts[1].object {
        Object::Literal(Literal::LanguageTaggedString { value, language }) => {
            assert_eq!(value, "Bern");
            assert_eq!(language, "en");
        }
        _ => panic!("expected a language-tagged literal"),
    }
    match &ts[2].object {
        Object::Literal(Literal::LanguageTaggedString { value, language }) => {
            assert_eq!(value, "Berne");
            assert_eq!(language, "fr");
        }
        _ => panic!("expected a language-tagged literal"),
    }
    let expected = "<https://ex.org/c1> <http://www.w3.org/1999/02/22-rdf-syntax-ns#type> <https://ex.org/ns#City> ;\n\t<https://ex.org/ns#hasName> \"Bern\"@en , \"Berne\"@fr .\n";
    assert_eq!(to_string(&v, &config).unwrap(), expected);
}

#[test]
fn nested_record_scenario() {
    let config = config(vec![
        subject(
            "Project",
            "https://ex.org/ns#Project",
            "id",
            "https://ex.org/",
            &[("dataset", "https://ex.org/ns#hasDataset")],
        ),
        subject(
            "Dataset",
            "https://ex.org/ns#Dataset",
            "id",
            "https://ex.org/",
            &[],
        ),
    ]);
    let v = record(
        "Project",
        vec![
            ("id", Value::Str("p1".to_string())),
            (
                "dataset",
                record("Dataset", vec![("id", Value::Str("d1".to_string()))]),
            ),
        ],
    );
    let ts = to_triples(&v, &config).unwrap();
    assert_eq!(ts.len(), 3);
    // the nested record's rdf:type triple stands before the link triple
    assert_eq!(ts[1].subject, "https://ex.org/d1");
    assert_eq!(ts[1].predicate, RDF_TYPE);
    assert_eq!(ts[2].subject, "https://ex.org/p1");
    assert_eq!(ts[2].predicate, "https://ex.org/ns#hasDataset");
    match &ts[2].object {
        Object::Iri(iri) => assert_eq!(iri, "https://ex.org/d1"),
        _ => panic!("expected a link to the nested subject"),
    }
    let out = to_string(&v, &config).unwrap();
    let child_type = out.find("<https://ex.org/d1> <http://www.w3.org/1999/02/22-rdf-syntax-ns#type>").unwrap();
    let link = out.find("<https://ex.org/ns#hasDataset> <https://ex.org/d1>").unwrap();
    assert!(child_type < link);
}

#[test]
fn one_type_triple_per_record() {
    let config = config(vec![
        subject(
            "Project",
            "https://ex.org/ns#Project",
            "id",
            "https://ex.org/",
            &[
                ("datasets", "https://ex.org/ns#hasDataset"),
                ("tags", "https://ex.org/ns#hasTag"),
            ],
        ),
        subject(
            "Dataset",
            "https://ex.org/ns#Dataset",
            "id",
            "https://ex.org/",
            &[],
        ),
    ]);
    let v = record(
        "Project",
        vec![
            ("id", Value::Str("p1".to_string())),
            (
                "datasets",
                Value::Sequence(vec![
                    record("Dataset", vec![("id", Value::Str("d1".to_string()))]),
                    record("Dataset", vec![("id", Value::Str("d2".to_string()))]),
                ]),
            ),
            (
                "tags",
                Value::Sequence(vec![
                    Value::Str("a".to_string()),
                    Value::Str("b".to_string()),
                ]),
            ),
        ],
    );
    let ts = to_triples(&v, &config).unwrap();
    let type_triples = ts.iter().filter(|t| t.predicate == RDF_TYPE).count();
    assert_eq!(type_triples, 3);
}

#[test]
fn encoding_is_deterministic() {
    let config = config(vec![subject(
        "City",
        "https://ex.org/ns#City",
        "id",
        "https://ex.org/",
        &[("name", "https://ex.org/ns#hasName")],
    )]);
    let v = record(
        "City",
        vec![
            ("id", Value::Str("c1".to_string())),
            (
                "name",
                Value::LangText(vec![
                    ("en".to_string(), "Bern".to_string()),
                    ("fr".to_string(), "Berne".to_string()),
                ]),
            ),
        ],
    );
    let first = to_string(&v, &config).unwrap();
    let second = to_string(&v, &config).unwrap();
    assert_eq!(first, second);
}

#[test]
fn flatten_sequence_of_scalars() {
    let config = config(vec![subject(
        "Post",
        "https://ex.org/ns#Post",
        "id",
        "https://ex.org/",
        &[("tags", "https://ex.org/ns#hasTag")],
    )]);
    let v = record(
        "Post",
        vec![
            ("id", Value::Str("p".to_string())),
            (
                "tags",
                Value::Sequence(vec![
                    Value::Str("x".to_string()),
                    Value::Str("y".to_string()),
                    Value::Str("z".to_string()),
                ]),
            ),
        ],
    );
    let ts = to_triples(&v, &config).unwrap();
    let tag_triples: Vec<_> = ts
        .iter()
        .filter(|t| t.predicate == "https://ex.org/ns#hasTag")
        .collect();
    assert_eq!(tag_triples.len(), 3);
    assert!(tag_triples.iter().all(|t| t.subject == "https://ex.org/p"));
}

#[test]
fn link_sequence_of_records() {
    let config = config(vec![
        subject(
            "Project",
            "https://ex.org/ns#Project",
            "id",
            "https://ex.org/",
            &[("datasets", "https://ex.org/ns#hasDataset")],
        ),
        subject(
            "Dataset",
            "https://ex.org/ns#Dataset",
            "id",
            "https://ex.org/",
            &[],
        ),
    ]);
    let v = record(
        "Project",
        vec![
            ("id", Value::Str("p1".to_string())),
            (
                "datasets",
                Value::Sequence(vec![
                    record("Dataset", vec![("id", Value::Str("d1".to_string()))]),
                    record("Dataset", vec![("id", Value::Str("d2".to_string()))]),
                ]),
            ),
        ],
    );
    let ts = to_triples(&v, &config).unwrap();
    let links: Vec<usize> = ts
        .iter()
        .enumerate()
        .filter(|(_, t)| t.predicate == "https://ex.org/ns#hasDataset")
        .map(|(i, _)| i)
        .collect();
    assert_eq!(links.len(), 2);
    for (child, link) in [("https://ex.org/d1", links[0]), ("https://ex.org/d2", links[1])] {
        match &ts[link].object {
            Object::Iri(iri) => assert_eq!(iri, child),
            _ => panic!("expected a link triple"),
        }
        let child_type = ts
            .iter()
            .position(|t| t.predicate == RDF_TYPE && t.subject == child)
            .unwrap();
        assert!(child_type < link);
    }
}

#[test]
fn missing_subject_rule_fails() {
    let config = config(vec![subject(
        "Project",
        "https://ex.org/ns#Project",
        "id",
        "https://ex.org/",
        &[("dataset", "https://ex.org/ns#hasDataset")],
    )]);
    let v = record(
        "Project",
        vec![
            ("id", Value::Str("p1".to_string())),
            (
                "dataset",
                record("Dataset", vec![("id", Value::Str("d1".to_string()))]),
            ),
        ],
    );
    match to_string(&v, &config) {
        Err(Error::MissingSubjectRule(name)) => assert_eq!(name, "Dataset"),
        _ => panic!("expected MissingSubjectRule"),
    }
}

#[test]
fn top_level_sequence_of_records() {
    let config = config(vec![subject(
        "Test",
        "https://ex.org/ns#Test",
        "id",
        "https://ex.org/",
        &[],
    )]);
    let v = Value::Sequence(vec![
        record("Test", vec![("id", Value::Str("a".to_string()))]),
        record("Test", vec![("id", Value::Str("b".to_string()))]),
    ]);
    let ts = to_triples(&v, &config).unwrap();
    assert_eq!(ts.len(), 2);
    assert_eq!(ts[0].subject, "https://ex.org/a");
    assert_eq!(ts[1].subject, "https://ex.org/b");
    assert!(ts.iter().all(|t| t.predicate == RDF_TYPE));
}

#[test]
fn empty_sequence_field_emits_nothing() {
    let config = config(vec![subject(
        "Post",
        "https://ex.org/ns#Post",
        "id",
        "https://ex.org/",
        &[("tags", "https://ex.org/ns#hasTag")],
    )]);
    let v = record(
        "Post",
        vec![
            ("id", Value::Str("p".to_string())),
            ("tags", Value::Sequence(Vec::new())),
        ],
    );
    let ts = to_triples(&v, &config).unwrap();
    assert_eq!(ts.len(), 1);
}

#[test]
fn variant_cases() {
    let config = config(vec![subject(
        "Item",
        "https://ex.org/ns#Item",
        "id",
        "https://ex.org/",
        &[("v", "https://ex.org/ns#hasV")],
    )]);
    // a bare variant name becomes a string literal
    let unit = record(
        "Item",
        vec![
            ("id", Value::Str("i".to_string())),
            ("v", Value::Variant("Red".to_string(), vec![])),
        ],
    );
    let ts = to_triples(&unit, &config).unwrap();
    assert_eq!(ts.len(), 2);
    match &ts[1].object {
        Object::Literal(Literal::Typed { value, datatype }) => {
            assert_eq!(value, "Red");
            assert_eq!(datatype, "http://www.w3.org/2001/XMLSchema#string");
        }
        _ => panic!("expected a typed literal"),
    }
    // a variant with one carried value is encoded as that value
    let newtype = record(
        "Item",
        vec![
            ("id", Value::Str("i".to_string())),
            (
                "v",
                Value::Variant("Wrap".to_string(), vec![Value::Str("x".to_string())]),
            ),
        ],
    );
    let ts = to_triples(&newtype, &config).unwrap();
    assert_eq!(ts.len(), 2);
    match &ts[1].object {
        Object::Literal(Literal::Typed { value, .. }) => assert_eq!(value, "x"),
        _ => panic!("expected a typed literal"),
    }
    // a variant with many carried values is treated as a positional sequence
    let multi = record(
        "Item",
        vec![
            ("id", Value::Str("i".to_string())),
            (
                "v",
                Value::Variant(
                    "Pair".to_string(),
                    vec![Value::Str("a".to_string()), Value::Str("b".to_string())],
                ),
            ),
        ],
    );
    let ts = to_triples(&multi, &config).unwrap();
    assert_eq!(ts.len(), 3);
    assert_eq!(ts[1].predicate, "https://ex.org/ns#hasV");
    assert_eq!(ts[2].predicate, "https://ex.org/ns#hasV");
}
