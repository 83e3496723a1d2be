//! What is known of an event besides its data.
use vstd::prelude::*;

use crate::keyed::{opt_view, value_of, KeyedMap};
use crate::schema::{Definition, DefinitionView};
use crate::text::copy_bytes;
use crate::value::{Value, ValueView};

verus! {

/// An output of a component: the component, and the port where it has several.
#[derive(Debug, PartialEq, Eq)]
pub struct OutputId {
    pub component: String,
    pub port: Option<String>,
}

#[verifier::ext_equal]
pub struct OutputIdView {
    pub component: Seq<char>,
    pub port: Option<Seq<char>>,
}

impl View for OutputId {
    type V = OutputIdView;

    open spec fn view(&self) -> OutputIdView {
        OutputIdView { component: self.component@, port: opt_view(self.port) }
    }
}

impl Clone for OutputId {
    fn clone(&self) -> (r: Self)
        ensures
            r@ == self@,
    {
        OutputId { component: self.component.clone(), port: clone_text(&self.port) }
    }
}

/// A copy of an optional text.
pub fn clone_text(s: &Option<String>) -> (r: Option<String>)
    ensures
        opt_view(r) == opt_view(*s),
{
    match s {
        Some(s) => Some(s.clone()),
        None => None,
    }
}

/// What is known of an event besides its data: values that sources attached to it, secrets, where
/// it came from, its schema, and fields that were dropped from it.
#[derive(Debug, PartialEq)]
pub struct EventMetadata {
    pub value: Value,
    pub secrets: KeyedMap<String>,
    pub source_id: Option<String>,
    pub source_type: Option<String>,
    pub upstream_id: Option<OutputId>,
    pub schema_definition: Definition,
    pub dropped_fields: KeyedMap<Value>,
    pub source_event_id: Option<Vec<u8>>,
}

#[verifier::ext_equal]
pub struct MetadataView {
    pub value: ValueView,
    pub secrets: Seq<(Seq<char>, Seq<char>)>,
    pub source_id: Option<Seq<char>>,
    pub source_type: Option<Seq<char>>,
    pub upstream_id: Option<OutputIdView>,
    pub schema_definition: DefinitionView,
    pub dropped_fields: Seq<(Seq<char>, ValueView)>,
    pub source_event_id: Option<Seq<u8>>,
}

impl View for EventMetadata {
    type V = MetadataView;

    open spec fn view(&self) -> MetadataView {
        MetadataView {
            value: self.value@,
            secrets: self.secrets@,
            source_id: opt_view(self.source_id),
            source_type: opt_view(self.source_type),
            upstream_id: opt_view(self.upstream_id),
            schema_definition: self.schema_definition@,
            dropped_fields: self.dropped_fields@,
            source_event_id: opt_view(self.source_event_id),
        }
    }
}

impl MetadataView {
    /// Whether nothing is known.
    pub open spec fn is_default(&self) -> bool {
        &&& self.value == ValueView::empty_object()
        &&& self.secrets.len() == 0
        &&& self.source_id is None
        &&& self.source_type is None
        &&& self.upstream_id is None
        &&& self.schema_definition.is_default_with(Seq::empty())
        &&& self.dropped_fields.len() == 0
        &&& self.source_event_id is None
    }
}

impl Default for EventMetadata {
    fn default() -> (r: Self)
        ensures
            r@.is_default(),
    {
        EventMetadata {
            value: Value::new_object(),
            secrets: KeyedMap::new(),
            source_id: None,
            source_type: None,
            upstream_id: None,
            schema_definition: Definition::default_definition(),
            dropped_fields: KeyedMap::new(),
            source_event_id: None,
        }
    }
}

impl Clone for EventMetadata {
    fn clone(&self) -> (r: Self)
        ensures
            r@ == self@,
    {
        EventMetadata {
            value: self.value.clone(),
            secrets: clone_secrets(&self.secrets),
            source_id: clone_text(&self.source_id),
            source_type: clone_text(&self.source_type),
            upstream_id: match &self.upstream_id {
                Some(id) => Some(id.clone()),
                None => None,
            },
            schema_definition: self.schema_definition.clone(),
            dropped_fields: self.dropped_fields.clone(),
            source_event_id: match &self.source_event_id {
                Some(id) => Some(copy_bytes(id)),
                None => None,
            },
        }
    }
}

fn clone_secrets(secrets: &KeyedMap<String>) -> (r: KeyedMap<String>)
    ensures
        r@ == secrets@,
{
    let mut entries: Vec<(String, String)> = Vec::new();
    let mut i: usize = 0;
    while i < secrets.entries.len()
        invariant
            i <= secrets.entries@.len(),
            entries@.len() == i,
            forall|j: int|
                0 <= j < i ==> (#[trigger] entries@[j]).0@ == secrets.entries@[j].0@
                    && entries@[j].1@ == secrets.entries@[j].1@,
        decreases secrets.entries@.len() - i,
    {
        entries.push((secrets.entries[i].0.clone(), secrets.entries[i].1.clone()));
        i = i + 1;
    }
    let r = KeyedMap { entries };
    assert(r@ =~= secrets@);
    r
}

impl EventMetadata {
    pub fn value(&self) -> (r: &Value)
        ensures
            r@ == self@.value,
    {
        &self.value
    }

    pub fn value_mut(&mut self) -> (r: &mut Value)
        ensures
            (*r)@ == old(self)@.value,
            final(self)@ == (MetadataView { value: (*final(r))@, ..old(self)@ }),
    {
        &mut self.value
    }

    /// The value of the field with a meaning that was dropped from the event.
    pub fn dropped_field(&self, meaning: &str) -> (r: Option<&Value>)
        ensures
            match r {
                Some(v) => value_of(self@.dropped_fields, meaning@) == Some(v@),
                None => value_of(self@.dropped_fields, meaning@) is None,
            },
    {
        self.dropped_fields.get(meaning)
    }

    pub fn schema_definition(&self) -> (r: &Definition)
        ensures
            r@ == self@.schema_definition,
    {
        &self.schema_definition
    }
}

} // verus!
