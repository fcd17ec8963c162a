use rdf_encode::structure::{lookup_property, lookup_subject};
use rdf_encode::{
    to_string, to_triples, Error, Literal, Object, PropertyConfig, SerializerConfig,
    SubjectBuilder, SubjectConfig, Term, Value,
};

fn one_subject_config(props: &[(&str, &str)]) -> SerializerConfig {
    SerializerConfig {
        base_iri: String::new(),
        namespaces: Vec::new(),
        subjects: vec![SubjectConfig {
            struct_name: "Item".to_string(),
            rdf_type: "https://ex.org/ns#Item".to_string(),
            identifier_field: "id".to_string(),
            identifier_prefix: "https://ex.org/".to_string(),
            properties: props
                .iter()
                .map(|(f, p)| PropertyConfig {
                    struct_field: f.to_string(),
                    rdf_property: p.to_string(),
                })
                .collect(),
        }],
    }
}

fn item(fields: Vec<(&str, Value)>) -> Value {
    let mut all = vec![("id".to_string(), Value::Str("i".to_string()))];
    for (f, v) in fields {
        all.push((f.to_string(), v));
    }
    Value::Record("Item".to_string(), all)
}

fn literal_of(v: Value) -> Literal {
    let config = one_subject_config(&[("f", "https://ex.org/ns#f")]);
    let ts = to_triples(&item(vec![("f", v)]), &config).unwrap();
    assert_eq!(ts.len(), 2);
    match &ts[1].object {
        Object::Literal(l) => l.clone(),
        _ => panic!("expected a literal object"),
    }
}

#[test]
fn boolean_literals() {
    match literal_of(Value::Bool(true)) {
        Literal::Typed { value, datatype } => {
            assert_eq!(value, "true");
            assert_eq!(datatype, "http://www.w3.org/2001/XMLSchema#boolean");
        }
        _ => panic!("expected a typed literal"),
    }
    match literal_of(Value::Bool(false)) {
        Literal::Typed { value, .. } => assert_eq!(value, "false"),
        _ => panic!("expected a typed literal"),
    }
}

#[test]
fn integer_literals() {
    match literal_of(Value::Int(-42)) {
        Literal::Typed { value, datatype } => {
            assert_eq!(value, "-42");
            assert_eq!(datatype, "http://www.w3.org/2001/XMLSchema#integer");
        }
        _ => panic!("expected a typed literal"),
    }
    match literal_of(Value::Int(i64::MIN)) {
        Literal::Typed { value, .. } => assert_eq!(value, "-9223372036854775808"),
        _ => panic!("expected a typed literal"),
    }
    match literal_of(Value::UInt(0)) {
        Literal::Typed { value, .. } => assert_eq!(value, "0"),
        _ => panic!("expected a typed literal"),
    }
    match literal_of(Value::UInt(u64::MAX)) {
        Literal::Typed { value, .. } => assert_eq!(value, "18446744073709551615"),
        _ => panic!("expected a typed literal"),
    }
}

#[test]
fn char_and_string_literals() {
    match literal_of(Value::Char('ä')) {
        Literal::Typed { value, datatype } => {
            assert_eq!(value, "ä");
            assert_eq!(datatype, "http://www.w3.org/2001/XMLSchema#string");
        }
        _ => panic!("expected a typed literal"),
    }
    match literal_of(Value::Str("hello".to_string())) {
        Literal::Typed { value, datatype } => {
            assert_eq!(value, "hello");
            assert_eq!(datatype, "http://www.w3.org/2001/XMLSchema#string");
        }
        _ => panic!("expected a typed literal"),
    }
}

#[test]
fn byte_literals_are_lowercase_hex() {
    match literal_of(Value::Bytes(vec![0x00, 0xff, 0x1a])) {
        Literal::Typed { value, datatype } => {
            assert_eq!(value, "00ff1a");
            assert_eq!(datatype, "http://www.w3.org/2001/XMLSchema#hexBinary");
        }
        _ => panic!("expected a typed literal"),
    }
    match literal_of(Value::Bytes(Vec::new())) {
        Literal::Typed { value, .. } => assert_eq!(value, ""),
        _ => panic!("expected a typed literal"),
    }
}

#[test]
fn absent_field_is_omitted() {
    let config = one_subject_config(&[("f", "https://ex.org/ns#f")]);
    let ts = to_triples(&item(vec![("f", Value::Unit)]), &config).unwrap();
    assert_eq!(ts.len(), 1);
}

#[test]
fn unmapped_field_is_ignored() {
    let config = one_subject_config(&[]);
    let ts = to_triples(&item(vec![("extra", Value::Str("x".to_string()))]), &config).unwrap();
    assert_eq!(ts.len(), 1);
}

#[test]
fn identifier_field_produces_no_property_triple() {
    // even when the identifier field is also listed under the properties
    let config = one_subject_config(&[("id", "https://ex.org/ns#hasId")]);
    let ts = to_triples(&item(vec![]), &config).unwrap();
    assert_eq!(ts.len(), 1);
}

#[test]
fn missing_identifier_fails() {
    let config = one_subject_config(&[]);
    let v = Value::Record("Item".to_string(), Vec::new());
    match to_triples(&v, &config) {
        Err(Error::InvalidIdentifier(ty, field)) => {
            assert_eq!(ty, "Item");
            assert_eq!(field, "id");
        }
        _ => panic!("expected InvalidIdentifier"),
    }
}

#[test]
fn non_scalar_identifier_fails() {
    let config = one_subject_config(&[]);
    let v = Value::Record(
        "Item".to_string(),
        vec![("id".to_string(), Value::Sequence(Vec::new()))],
    );
    assert!(matches!(
        to_triples(&v, &config),
        Err(Error::InvalidIdentifier(_, _))
    ));
}

#[test]
fn mixed_sequence_fails() {
    let config = one_subject_config(&[("f", "https://ex.org/ns#f")]);
    let v = item(vec![(
        "f",
        Value::Sequence(vec![
            Value::Str("x".to_string()),
            Value::Record("Item".to_string(), Vec::new()),
        ]),
    )]);
    assert!(matches!(
        to_triples(&v, &config),
        Err(Error::UnsupportedValueShape)
    ));
}

#[test]
fn invalid_language_code_fails() {
    let config = one_subject_config(&[("f", "https://ex.org/ns#f")]);
    let v = item(vec![(
        "f",
        Value::LangText(vec![("EN".to_string(), "x".to_string())]),
    )]);
    assert!(matches!(
        to_triples(&v, &config),
        Err(Error::UnsupportedValueShape)
    ));
}

#[test]
fn top_level_scalar_fails() {
    let config = one_subject_config(&[]);
    assert!(matches!(
        to_string(&Value::Str("x".to_string()), &config),
        Err(Error::NoActiveSubject)
    ));
}

#[test]
fn subject_builder_builds() {
    let built = SubjectBuilder::new("Item".to_string())
        .rdf_type("https://ex.org/ns#Item".to_string())
        .identifier_field("id".to_string())
        .identifier_prefix("https://ex.org/".to_string())
        .property("f".to_string(), "https://ex.org/ns#f".to_string())
        .build();
    assert_eq!(built.struct_name, "Item");
    assert_eq!(built.rdf_type, "https://ex.org/ns#Item");
    assert_eq!(built.identifier_field, "id");
    assert_eq!(built.identifier_prefix, "https://ex.org/");
    assert_eq!(built.properties.len(), 1);
    assert_eq!(built.properties[0].struct_field, "f");
    assert_eq!(built.properties[0].rdf_property, "https://ex.org/ns#f");

    let config = SerializerConfig {
        base_iri: String::new(),
        namespaces: Vec::new(),
        subjects: vec![built],
    };
    let ts = to_triples(&item(vec![("f", Value::Bool(true))]), &config).unwrap();
    assert_eq!(ts.len(), 2);
}

#[test]
fn lookup_finds_first_match() {
    let config = one_subject_config(&[("f", "https://ex.org/ns#f")]);
    let rule = lookup_subject(&config.subjects, &"Item".to_string()).unwrap();
    assert_eq!(rule.struct_name, "Item");
    assert!(lookup_subject(&config.subjects, &"Other".to_string()).is_none());
    let prop = lookup_property(&rule.properties, &"f".to_string()).unwrap();
    assert_eq!(prop.rdf_property, "https://ex.org/ns#f");
    assert!(lookup_property(&rule.properties, &"g".to_string()).is_none());
}

#[test]
fn error_messages() {
    assert_eq!(Error::new("boom".to_string()).message(), "boom");
    assert_eq!(
        Error::MissingSubjectRule("Dataset".to_string()).message(),
        "no subject rule for record type Dataset"
    );
    assert_eq!(
        Error::InvalidIdentifier("Item".to_string(), "id".to_string()).message(),
        "invalid identifier field id on record type Item"
    );
    assert_eq!(Error::UnsupportedValueShape.message(), "unsupported value shape");
    assert_eq!(
        Error::NoActiveSubject.message(),
        "property encountered outside any record"
    );
    assert_eq!(
        Error::EmitterFailure.message(),
        "the triple emitter reported a failure"
    );
}

#[test]
fn error_and_literal_helpers() {
    match Error::new("boom".to_string()) {
        Error::Message(m) => assert_eq!(m, "boom"),
        _ => panic!("expected a message error"),
    }
    let lit = Literal::LanguageTaggedString {
        value: "Bern".to_string(),
        language: "en".to_string(),
    };
    assert_eq!(lit.value(), "Bern");
    match Term::Literal("x".to_string()) {
        Term::Literal(s) => assert_eq!(s, "x"),
        Term::Subject(_) => panic!("expected a literal term"),
    }
}
