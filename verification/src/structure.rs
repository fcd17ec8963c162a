//! The mapping configuration: a declarative description of how record types
//! map onto an RDF vocabulary.
//!
//! A [`SerializerConfig`] holds one [`SubjectConfig`] per record type name.
//! A subject rule names the RDF class of the record, the field that supplies
//! the subject's local identifier, the IRI prefix that turns that identifier
//! into the subject IRI, and one [`PropertyConfig`] per mapped field.
//! The configuration is read-only for the duration of an encode call.

use vstd::prelude::*;

verus! {

/// A triple object at the configuration boundary: either a literal's lexical
/// form or the IRI of a subject.
pub enum Term {
    Literal(String),
    Subject(String),
}

/// How one field of a record maps onto an RDF property.
pub struct PropertyConfig {
    /// The record field this rule governs.
    pub struct_field: String,
    /// The IRI emitted as the triple's predicate when the field is present.
    pub rdf_property: String,
}

/// How one record type maps onto an RDF subject.
pub struct SubjectConfig {
    /// The record type name; the same name keys this rule in
    /// [`SerializerConfig::subjects`].
    pub struct_name: String,
    /// The IRI of the RDF class this record instantiates.
    pub rdf_type: String,
    /// The name of the field supplying the subject's local identifier.
    pub identifier_field: String,
    /// The IRI prefix prepended to the identifier field's literal value to
    /// build the subject IRI.
    pub identifier_prefix: String,
    /// The per-field mapping rules, in emission order.
    pub properties: Vec<PropertyConfig>,
}

/// The full mapping configuration for one encode call.
pub struct SerializerConfig {
    /// Default IRI prefix; may be empty.
    pub base_iri: String,
    /// Short prefix to IRI, for compact display only; keys unique.
    pub namespaces: Vec<(String, String)>,
    /// One subject rule per record type, keyed by the rule's `struct_name`;
    /// keys unique.
    pub subjects: Vec<SubjectConfig>,
}

impl SerializerConfig {
    /// Well-formedness: type names key the subject rules uniquely, and
    /// namespace prefixes are unique.
    pub open spec fn wf(self) -> bool {
        &&& forall|i: int, j: int|
            0 <= i < j < self.subjects@.len() ==> (#[trigger] self.subjects@[i]).struct_name@
                != (#[trigger] self.subjects@[j]).struct_name@
        &&& forall|i: int, j: int|
            0 <= i < j < self.namespaces@.len() ==> (#[trigger] self.namespaces@[i]).0@
                != (#[trigger] self.namespaces@[j]).0@
    }
}

/// The subject rule that a linear scan of `subjects` starting at index `i`
/// yields for `name`: the first rule whose `struct_name` is `name`.
pub open spec fn spec_lookup_subject_from(
    subjects: Seq<SubjectConfig>,
    name: Seq<char>,
    i: int,
) -> Option<SubjectConfig>
    decreases subjects.len() - i,
{
    if i < 0 || i >= subjects.len() {
        None
    } else if subjects[i].struct_name@ == name {
        Some(subjects[i])
    } else {
        spec_lookup_subject_from(subjects, name, i + 1)
    }
}

/// The subject rule for a record type name, if any.
pub open spec fn spec_lookup_subject(subjects: Seq<SubjectConfig>, name: Seq<char>) -> Option<
    SubjectConfig,
> {
    spec_lookup_subject_from(subjects, name, 0)
}

/// The property rule that a linear scan of `properties` starting at index `i`
/// yields for `field`: the first rule whose `struct_field` is `field`.
pub open spec fn spec_lookup_property_from(
    properties: Seq<PropertyConfig>,
    field: Seq<char>,
    i: int,
) -> Option<PropertyConfig>
    decreases properties.len() - i,
{
    if i < 0 || i >= properties.len() {
        None
    } else if properties[i].struct_field@ == field {
        Some(properties[i])
    } else {
        spec_lookup_property_from(properties, field, i + 1)
    }
}

/// The property rule for a field name, if any.
pub open spec fn spec_lookup_property(
    properties: Seq<PropertyConfig>,
    field: Seq<char>,
) -> Option<PropertyConfig> {
    spec_lookup_property_from(properties, field, 0)
}

fn lookup_subject_from<'a>(
    subjects: &'a Vec<SubjectConfig>,
    name: &String,
    i: usize,
) -> (r: Option<&'a SubjectConfig>)
    requires
        i <= subjects@.len(),
    ensures
        match r {
            Some(rule) => spec_lookup_subject_from(subjects@, name@, i as int) == Some(*rule),
            None => spec_lookup_subject_from(subjects@, name@, i as int) is None,
        },
    decreases subjects@.len() - i,
{
    if i >= subjects.len() {
        None
    } else if subjects[i].struct_name == *name {
        Some(&subjects[i])
    } else {
        lookup_subject_from(subjects, name, i + 1)
    }
}

/// Resolve the subject rule for a record type name: the first rule in
/// `subjects` whose `struct_name` equals `name`.
pub fn lookup_subject<'a>(subjects: &'a Vec<SubjectConfig>, name: &String) -> (r: Option<
    &'a SubjectConfig,
>)
    ensures
        match r {
            Some(rule) => spec_lookup_subject(subjects@, name@) == Some(*rule),
            None => spec_lookup_subject(subjects@, name@) is None,
        },
{
    lookup_subject_from(subjects, name, 0)
}

fn lookup_property_from<'a>(
    properties: &'a Vec<PropertyConfig>,
    field: &String,
    i: usize,
) -> (r: Option<&'a PropertyConfig>)
    requires
        i <= properties@.len(),
    ensures
        match r {
            Some(rule) => spec_lookup_property_from(properties@, field@, i as int) == Some(*rule),
            None => spec_lookup_property_from(properties@, field@, i as int) is None,
        },
    decreases properties@.len() - i,
{
    if i >= properties.len() {
        None
    } else if properties[i].struct_field == *field {
        Some(&properties[i])
    } else {
        lookup_property_from(properties, field, i + 1)
    }
}

/// Resolve the property rule for a field name: the first rule in `properties`
/// whose `struct_field` equals `field`.
pub fn lookup_property<'a>(properties: &'a Vec<PropertyConfig>, field: &String) -> (r: Option<
    &'a PropertyConfig,
>)
    ensures
        match r {
            Some(rule) => spec_lookup_property(properties@, field@) == Some(*rule),
            None => spec_lookup_property(properties@, field@) is None,
        },
{
    lookup_property_from(properties, field, 0)
}

/// Step-by-step construction of a [`SubjectConfig`].
pub struct SubjectBuilder {
    struct_name: String,
    rdf_type: String,
    identifier_field: String,
    identifier_prefix: String,
    properties: Vec<PropertyConfig>,
}

impl SubjectBuilder {
    /// The subject rule this builder would build in its current state.
    pub closed spec fn as_config(self) -> SubjectConfig {
        SubjectConfig {
            struct_name: self.struct_name,
            rdf_type: self.rdf_type,
            identifier_field: self.identifier_field,
            identifier_prefix: self.identifier_prefix,
            properties: self.properties,
        }
    }

    /// Start building the rule for the record type `struct_name`; all other
    /// parts start out empty.
    pub fn new(struct_name: String) -> (r: SubjectBuilder)
        ensures
            r.as_config().struct_name == struct_name,
            r.as_config().rdf_type@ == Seq::<char>::empty(),
            r.as_config().identifier_field@ == Seq::<char>::empty(),
            r.as_config().identifier_prefix@ == Seq::<char>::empty(),
            r.as_config().properties@ == Seq::<PropertyConfig>::empty(),
    {
        SubjectBuilder {
            struct_name,
            rdf_type: String::new(),
            identifier_field: String::new(),
            identifier_prefix: String::new(),
            properties: Vec::new(),
        }
    }

    /// Set the RDF class IRI.
    pub fn rdf_type(self, rdf_type: String) -> (r: SubjectBuilder)
        ensures
            r.as_config() == (SubjectConfig { rdf_type, ..self.as_config() }),
    {
        SubjectBuilder { rdf_type, ..self }
    }

    /// Set the identifier field name.
    pub fn identifier_field(self, identifier_field: String) -> (r: SubjectBuilder)
        ensures
            r.as_config() == (SubjectConfig { identifier_field, ..self.as_config() }),
    {
        SubjectBuilder { identifier_field, ..self }
    }

    /// Set the identifier IRI prefix.
    pub fn identifier_prefix(self, identifier_prefix: String) -> (r: SubjectBuilder)
        ensures
            r.as_config() == (SubjectConfig { identifier_prefix, ..self.as_config() }),
    {
        SubjectBuilder { identifier_prefix, ..self }
    }

    /// Append one property rule.
    pub fn property(self, struct_field: String, rdf_property: String) -> (r: SubjectBuilder)
        ensures
            r.as_config().struct_name == self.as_config().struct_name,
            r.as_config().rdf_type == self.as_config().rdf_type,
            r.as_config().identifier_field == self.as_config().identifier_field,
            r.as_config().identifier_prefix == self.as_config().identifier_prefix,
            r.as_config().properties@ == self.as_config().properties@.push(
                PropertyConfig { struct_field, rdf_property },
            ),
    {
        let mut properties = self.properties;
        properties.push(PropertyConfig { struct_field, rdf_property });
        SubjectBuilder { properties, ..self }
    }

    /// Finish building.
    pub fn build(self) -> (r: SubjectConfig)
        ensures
            r == self.as_config(),
    {
        SubjectConfig {
            struct_name: self.struct_name,
            rdf_type: self.rdf_type,
            identifier_field: self.identifier_field,
            identifier_prefix: self.identifier_prefix,
            properties: self.properties,
        }
    }
}

} // verus!
