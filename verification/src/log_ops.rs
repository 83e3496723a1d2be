//! What is done with log events by meaning, by source and by time.
use vstd::prelude::*;
use vstd::utf8::{decode_utf8, valid_utf8};

use crate::any_value::{any_from_value, string_value, vrl_value_to_any_value, AnyValue, AnyView};
use crate::keyed::{opt_view, value_of, with_entry};
use crate::log::{OtelLog, OtelLogView};
use crate::log_path::{any_value, read_any};
use crate::metadata::MetadataView;
use crate::otlp::LogRecordView;
use crate::path::{stored, OwnedTargetPath, TargetPathView};
use crate::path_text::{
    one_field, parse_target_path, path_read, two_field_path, two_fields, PathParseError,
};
use crate::text::utf8_text;
use crate::time::{epoch_nanos, instant_after, rfc3339_instant, to_u64, wrap_u64, Timestamp};
use crate::value::{Value, ValueView};

verus! {

/// The instant that lies some nanoseconds after the Unix epoch.
pub fn nanos_to_timestamp(n: u64) -> (r: Value)
    ensures
        r@ == ValueView::Timestamp(instant_after(n)),
{
    Value::Timestamp(Timestamp::from_nanos(n))
}

/// What a value is read as where an instant is wanted: the instant that a text names, and anything
/// else as it is.
pub open spec fn coerced(v: ValueView) -> ValueView {
    match v {
        ValueView::Bytes(b) => if valid_utf8(b) && rfc3339_instant(decode_utf8(b)) is Some {
            let (secs, nanos) = rfc3339_instant(decode_utf8(b))->0;
            ValueView::Timestamp(Timestamp::at(secs, nanos))
        } else {
            v
        },
        _ => v,
    }
}

/// Coerce a value to a timestamp if it is a string that can be parsed as RFC 3339. Attribute values
/// have no native timestamp type, so timestamps come back as strings.
pub fn coerce_to_timestamp(v: Value) -> (r: Value)
    ensures
        r@ == coerced(v@),
{
    if let Value::Bytes(b) = &v {
        if let Some(s) = utf8_text(b.as_slice()) {
            if let Some(t) = Timestamp::parse_rfc3339(s.as_str()) {
                return Value::Timestamp(t);
            }
        }
    }
    v
}

impl OtelLogView {
    /// The field with a meaning: one that was dropped from the event, or else the one at the path
    /// that the schema gives for the meaning.
    pub open spec fn meant(&self, meaning: Seq<char>) -> Option<ValueView> {
        match value_of(self.metadata.dropped_fields, meaning) {
            Some(v) => Some(v),
            None => match value_of(self.metadata.schema_definition.meanings, meaning) {
                Some(p) => self.at(p),
                None => None,
            },
        }
    }

    /// The time of the event: the field that means it, or else the time of the record, or else the
    /// time of its observation.
    pub open spec fn timestamp(&self) -> Option<ValueView> {
        match self.meant("timestamp"@) {
            Some(v) => Some(coerced(v)),
            None => if self.record.time_unix_nano != 0 {
                Some(ValueView::Timestamp(instant_after(self.record.time_unix_nano)))
            } else if self.record.observed_time_unix_nano != 0 {
                Some(ValueView::Timestamp(instant_after(self.record.observed_time_unix_nano)))
            } else {
                None
            },
        }
    }

    /// The event with the time of its record set.
    pub open spec fn with_time(self, n: u64) -> OtelLogView {
        OtelLogView { record: LogRecordView { time_unix_nano: n, ..self.record }, ..self }
    }

    /// The event with the time of its observation set.
    pub open spec fn with_observed_time(self, n: u64) -> OtelLogView {
        OtelLogView { record: LogRecordView { observed_time_unix_nano: n, ..self.record }, ..self }
    }

    /// The event with an attribute of its resource set.
    pub open spec fn with_resource_attribute(self, key: Seq<char>, v: AnyView) -> OtelLogView {
        OtelLogView {
            resource_attrs: with_entry(self.resource_attrs, key, v),
            ..self.with_some_resource()
        }
    }

    /// The event after its source was noted.
    pub open spec fn with_source(self, source_name: Seq<char>, now: Timestamp) -> OtelLogView {
        self.with_resource_attribute("source_type"@, AnyView::Str(source_name)).with_observed_time(
            wrap_u64(epoch_nanos(now) as int),
        )
    }
}

/// The value of the metadata after the source of an event was noted in it.
pub open spec fn with_vector_source(v: ValueView, source_name: Seq<char>, now: Timestamp) -> ValueView {
    let source_type = two_fields("vector"@, "source_type"@).path;
    let ingest_timestamp = two_fields("vector"@, "ingest_timestamp"@).path;
    stored(
        Some(stored(Some(v), source_type, ValueView::text(source_name))),
        ingest_timestamp,
        ValueView::Timestamp(now),
    )
}

impl OtelLog {
    /// Get a field value by its semantic meaning (looks up schema definition).
    pub fn get_by_meaning(&self, meaning: &str) -> (r: Option<Value>)
        ensures
            opt_view(r) == self@.meant(meaning@),
    {
        match self.metadata.dropped_field(meaning) {
            Some(v) => Some(v.clone()),
            None => match self.metadata.schema_definition().meaning_path(meaning) {
                Some(path) => self.get(path),
                None => None,
            },
        }
    }

    /// Find the path for a field by its semantic meaning.
    pub fn find_key_by_meaning(&self, meaning: &str) -> (r: Option<&OwnedTargetPath>)
        ensures
            opt_view(r) == value_of(self@.metadata.schema_definition.meanings, meaning@),
    {
        self.metadata.schema_definition().meaning_path(meaning)
    }

    /// Get the timestamp from the event.
    ///
    /// Prefers `time_unix_nano` (event time), falls back to
    /// `observed_time_unix_nano` (ingest time).
    pub fn get_timestamp(&self) -> (r: Option<Value>)
        ensures
            opt_view(r) == self@.timestamp(),
    {
        if let Some(ts) = self.get_by_meaning("timestamp") {
            return Some(coerce_to_timestamp(ts));
        }
        if self.record.time_unix_nano != 0 {
            Some(nanos_to_timestamp(self.record.time_unix_nano))
        } else if self.record.observed_time_unix_nano != 0 {
            Some(nanos_to_timestamp(self.record.observed_time_unix_nano))
        } else {
            None
        }
    }

    /// Remove the timestamp from the event.
    pub fn remove_timestamp(&mut self) -> (r: Option<Value>)
        ensures
            opt_view(r) == old(self)@.timestamp(),
            final(self)@ == old(self)@.with_time(0),
    {
        let ts = self.get_timestamp();
        self.record.time_unix_nano = 0;
        ts
    }

    /// Set the event timestamp (`time_unix_nano`).
    /// Returns the previous timestamp value, if any.
    pub fn set_timestamp(&mut self, ts: Timestamp) -> (r: Option<Value>)
        ensures
            opt_view(r) == old(self)@.timestamp(),
            final(self)@ == old(self)@.with_time(wrap_u64(epoch_nanos(ts) as int)),
    {
        let old = self.get_timestamp();
        self.record.time_unix_nano = to_u64(ts.nanos_or_zero());
        old
    }

    /// Set the event timestamp only if one is not already present.
    pub fn try_set_timestamp(&mut self, ts: Timestamp)
        ensures
            final(self)@ == if old(self)@.record.time_unix_nano == 0 {
                old(self)@.with_time(wrap_u64(epoch_nanos(ts) as int))
            } else {
                old(self)@
            },
    {
        if self.record.time_unix_nano == 0 {
            self.record.time_unix_nano = to_u64(ts.nanos_or_zero());
        }
    }

    /// Set a resource attribute (e.g. `host.name`, `source_type`).
    pub fn set_resource_attribute(&mut self, key: String, value: AnyValue)
        ensures
            final(self)@ == old(self)@.with_resource_attribute(key@, value@),
    {
        self.ensure_resource();
        self.resource_attrs.insert(key, value);
    }

    /// Set the observed_time_unix_nano (ingest timestamp).
    pub fn set_observed_timestamp(&mut self, now: Timestamp)
        ensures
            final(self)@ == old(self)@.with_observed_time(wrap_u64(epoch_nanos(now) as int)),
    {
        self.record.observed_time_unix_nano = to_u64(now.nanos_or_zero());
    }

    /// Set source metadata: source_type (resource attribute) and observed_time_unix_nano.
    pub fn set_source_metadata(&mut self, source_name: &str, now: Timestamp)
        ensures
            final(self)@ == old(self)@.with_source(source_name@, now),
    {
        self.set_resource_attribute("source_type".to_string(), string_value(source_name));
        self.set_observed_timestamp(now);
    }

    /// Set source metadata for Vector namespace: populates both OtelLog
    /// fields and `%vector.*` metadata entries for backward compatibility.
    pub fn set_source_metadata_vector_ns(&mut self, source_name: &str, now: Timestamp)
        ensures
            final(self)@ == (OtelLogView {
                metadata: MetadataView {
                    value: with_vector_source(old(self)@.metadata.value, source_name@, now),
                    ..old(self)@.metadata
                },
                ..old(self)@.with_source(source_name@, now)
            }),
    {
        self.set_source_metadata(source_name, now);
        self.metadata.value.insert(
            &two_field_path("vector", "source_type"),
            Value::from_text(source_name),
        );
        self.metadata.value.insert(
            &two_field_path("vector", "ingest_timestamp"),
            Value::Timestamp(now),
        );
    }

    /// Get the "source_type" from resource attributes.
    pub fn get_source_type(&self) -> (r: Option<Value>)
        ensures
            opt_view(r) == read_any(value_of(self@.resource_attrs, "source_type"@)),
    {
        any_value(self.resource_attribute("source_type"))
    }

    /// Set the source_type as a resource attribute.
    pub fn set_source_type(&mut self, value: Value)
        ensures
            final(self)@ == old(self)@.with_resource_attribute(
                "source_type"@,
                any_from_value(value@),
            ),
    {
        self.set_resource_attribute("source_type".to_string(), vrl_value_to_any_value(&value));
    }

    /// Set the source_type only if not already present.
    pub fn try_set_source_type(&mut self, value: Value)
        ensures
            final(self)@ == if value_of(old(self)@.resource_attrs, "source_type"@) is None {
                old(self)@.with_resource_attribute("source_type"@, any_from_value(value@))
            } else {
                old(self)@
            },
    {
        if self.resource_attribute("source_type").is_none() {
            self.set_source_type(value);
        }
    }

    /// Get the host value from resource attributes.
    pub fn get_host(&self) -> (r: Option<Value>)
        ensures
            opt_view(r) == read_any(value_of(self@.resource_attrs, "host.name"@)),
    {
        any_value(self.resource_attribute("host.name"))
    }

    /// Set the host as a resource attribute (`host.name`).
    pub fn set_host(&mut self, value: Value)
        ensures
            final(self)@ == old(self)@.with_resource_attribute(
                "host.name"@,
                any_from_value(value@),
            ),
    {
        self.set_resource_attribute("host.name".to_string(), vrl_value_to_any_value(&value));
    }

    /// Set the host only if not already present.
    pub fn try_set_host(&mut self, value: Value)
        ensures
            final(self)@ == if value_of(old(self)@.resource_attrs, "host.name"@) is None {
                old(self)@.with_resource_attribute("host.name"@, any_from_value(value@))
            } else {
                old(self)@
            },
    {
        if self.resource_attribute("host.name").is_none() {
            self.set_host(value);
        }
    }

    /// Check if a field exists.
    pub fn contains(&self, path: &OwnedTargetPath) -> (r: bool)
        ensures
            r == (self@.at(path@) is Some),
    {
        self.get(path).is_some()
    }

    /// Get the log body value.
    pub fn get_body(&self) -> (r: Option<Value>)
        ensures
            opt_view(r) == read_any(self@.record.body),
    {
        any_value(self.body())
    }

    /// Get the underlying value: the body, or null where there is none.
    pub fn value(&self) -> (r: Value)
        ensures
            r@ == match read_any(self@.record.body) {
                Some(v) => v,
                None => ValueView::Null,
            },
    {
        match self.get_body() {
            Some(v) => v,
            None => Value::Null,
        }
    }

    /// Check if the log has no body and no attributes.
    pub fn is_empty_object(&self) -> (r: bool)
        ensures
            r == (self@.record.body is None && self@.record_attrs.len() == 0),
    {
        self.record.body.is_none() && self.record_attrs.is_empty()
    }

    /// Insert at `path` only if `path` is Some. Convenience wrapper around
    /// `insert` that only inserts when the path is `Some`.
    pub fn maybe_insert(&mut self, path: Option<&OwnedTargetPath>, value: Value, rendered: &str)
        ensures
            final(self)@ == match path {
                Some(p) => old(self)@.with(p@, value@, rendered@),
                None => old(self)@,
            },
    {
        if let Some(path) = path {
            self.insert(path, value, rendered);
        }
    }

    /// Try insert - only inserts if the path doesn't exist.
    pub fn try_insert(&mut self, path: &OwnedTargetPath, value: Value, rendered: &str)
        ensures
            final(self)@ == if old(self)@.at(path@) is None {
                old(self)@.with(path@, value@, rendered@)
            } else {
                old(self)@
            },
    {
        if self.get(path).is_none() {
            self.insert(path, value, rendered);
        }
    }

    /// Rename a key. Where the value goes into a text field and is not text itself, `rendered` is
    /// the text that it is shown as.
    pub fn rename_key(&mut self, from: &OwnedTargetPath, to: &OwnedTargetPath, rendered: &str)
        ensures
            final(self)@ == match old(self)@.removed_at(from@) {
                Some(v) => old(self)@.without(from@, false).with(to@, v, rendered@),
                None => old(self)@.without(from@, false),
            },
    {
        if let Some(val) = self.remove(from) {
            self.insert(to, val, rendered);
        }
    }

    /// Get the timestamp path (`time_unix_nano`).
    pub fn timestamp_path(&self) -> (r: Option<OwnedTargetPath>)
        ensures
            opt_view(r) == Some(one_field("time_unix_nano"@)),
    {
        Some(OwnedTargetPath::event_field("time_unix_nano"))
    }

    /// Get the body path.
    pub fn body_path(&self) -> (r: Option<OwnedTargetPath>)
        ensures
            opt_view(r) == Some(one_field("body"@)),
    {
        Some(OwnedTargetPath::event_field("body"))
    }

    /// Returns the path to the source_type resource attribute, if present.
    pub fn source_type_path(&self) -> (r: Option<OwnedTargetPath>)
        ensures
            opt_view(r) == if value_of(self@.resource_attrs, "source_type"@) is Some {
                Some(two_fields("resource"@, "source_type"@))
            } else {
                None
            },
    {
        if self.resource_attribute("source_type").is_some() {
            Some(OwnedTargetPath::event_fields("resource", "source_type"))
        } else {
            None
        }
    }

    /// Parse a path and get a value.
    pub fn parse_path_and_get_value(&self, path: &str) -> (r: Result<
        Option<Value>,
        PathParseError,
    >)
        ensures
            match r {
                Ok(v) => path_read(path@) matches Ok(p) && opt_view(v) == self@.at(p),
                Err(PathParseError::InvalidPathSyntax { path: e }) => path_read(path@)
                    == Err::<TargetPathView, Seq<char>>(e@),
            },
    {
        match parse_target_path(path) {
            Ok(p) => Ok(self.get(&p)),
            Err(e) => Err(e),
        }
    }

    /// Parse a path and insert a value there.
    pub fn parse_path_and_insert(&mut self, path: &str, value: Value, rendered: &str) -> (r: Result<
        Option<Value>,
        PathParseError,
    >)
        ensures
            match r {
                Ok(v) => path_read(path@) matches Ok(p) && opt_view(v) == old(self)@.replaced_at(p)
                    && final(self)@ == old(self)@.with(p, value@, rendered@),
                Err(PathParseError::InvalidPathSyntax { path: e }) => path_read(path@)
                    == Err::<TargetPathView, Seq<char>>(e@) && final(self)@ == old(self)@,
            },
    {
        match parse_target_path(path) {
            Ok(p) => Ok(self.insert(&p, value, rendered)),
            Err(e) => Err(e),
        }
    }
}

} // verus!
