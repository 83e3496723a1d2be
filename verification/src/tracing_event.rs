//! Log events from the events of the `tracing` framework.
use vstd::prelude::*;

use crate::keyed::{with_entry, KeyedMap};
use crate::log::OtelLog;
use crate::log_value::log_from_value;
use crate::metadata::EventMetadata;
use crate::text::{decimal, str_eq, u64_text};
use crate::value::{lemma_object_view, Value, ValueView};

verus! {

/// The fields of an event of the `tracing` framework, gathered one after the other.
pub struct OtelLogTracingBuilder {
    pub map: KeyedMap<Value>,
}

impl View for OtelLogTracingBuilder {
    type V = Seq<(Seq<char>, ValueView)>;

    open spec fn view(&self) -> Seq<(Seq<char>, ValueView)> {
        self.map@
    }
}

/// The field of a log event that a field of a `tracing` event becomes.
pub open spec fn canonical_name(name: Seq<char>) -> Seq<char> {
    if name == "message"@ {
        "body"@
    } else {
        name
    }
}

impl Default for OtelLogTracingBuilder {
    fn default() -> (r: Self)
        ensures
            r@ == Seq::<(Seq<char>, ValueView)>::empty(),
    {
        OtelLogTracingBuilder { map: KeyedMap::new() }
    }
}

impl OtelLogTracingBuilder {
    /// Map the tracing field name to the canonical OtelLog key.
    /// The tracing framework uses "message" for the log body, but
    /// the canonical key is "body".
    fn canonical_key(name: &str) -> (r: String)
        ensures
            r@ == canonical_name(name@),
    {
        if str_eq(name, "message") {
            "body".to_string()
        } else {
            name.to_string()
        }
    }

    pub fn record_str(&mut self, name: &str, value: &str)
        ensures
            final(self)@ == with_entry(
                old(self)@,
                canonical_name(name@),
                ValueView::text(value@),
            ),
    {
        self.map.insert(OtelLogTracingBuilder::canonical_key(name), Value::from_text(value));
    }

    /// Records a value by the text that it is shown as for debugging.
    pub fn record_debug(&mut self, name: &str, shown: &str)
        ensures
            final(self)@ == with_entry(
                old(self)@,
                canonical_name(name@),
                ValueView::text(shown@),
            ),
    {
        self.map.insert(OtelLogTracingBuilder::canonical_key(name), Value::from_text(shown));
    }

    pub fn record_i64(&mut self, name: &str, value: i64)
        ensures
            final(self)@ == with_entry(
                old(self)@,
                canonical_name(name@),
                ValueView::Integer(value),
            ),
    {
        self.map.insert(OtelLogTracingBuilder::canonical_key(name), Value::Integer(value));
    }

    /// Records an unsigned integer: as an integer where it is a signed one too, else as text.
    pub fn record_u64(&mut self, name: &str, value: u64)
        ensures
            final(self)@ == with_entry(
                old(self)@,
                canonical_name(name@),
                if value <= i64::MAX {
                    ValueView::Integer(value as i64)
                } else {
                    ValueView::text(decimal(value as nat))
                },
            ),
    {
        let v = if value <= i64::MAX as u64 {
            Value::Integer(value as i64)
        } else {
            Value::from_text(u64_text(value).as_str())
        };
        self.map.insert(OtelLogTracingBuilder::canonical_key(name), v);
    }

    pub fn record_bool(&mut self, name: &str, value: bool)
        ensures
            final(self)@ == with_entry(
                old(self)@,
                canonical_name(name@),
                ValueView::Boolean(value),
            ),
    {
        self.map.insert(OtelLogTracingBuilder::canonical_key(name), Value::Boolean(value));
    }
}

/// What a `tracing` event says of where it comes from.
pub struct TracingMetadata<'a> {
    pub is_event: bool,
    pub is_span: bool,
    pub level: &'a str,
    pub module: Option<&'a str>,
    pub target: &'a str,
}

impl<'a> TracingMetadata<'a> {
    /// The fields that say where a `tracing` event comes from.
    pub open spec fn fields(&self) -> Seq<(Seq<char>, ValueView)> {
        let kind = if self.is_event {
            ValueView::text("event"@)
        } else if self.is_span {
            ValueView::text("span"@)
        } else {
            ValueView::Null
        };
        let module = match self.module {
            Some(p) => ValueView::text(p@),
            None => ValueView::Null,
        };
        let m = with_entry(Seq::empty(), "kind"@, kind);
        let m = with_entry(m, "level"@, ValueView::text(self.level@));
        let m = with_entry(m, "module_path"@, module);
        with_entry(m, "target"@, ValueView::text(self.target@))
    }

    /// The fields that say where a `tracing` event comes from.
    fn to_map(&self) -> (r: KeyedMap<Value>)
        ensures
            r@ == self.fields(),
    {
        let kind = if self.is_event {
            Value::from_text("event")
        } else if self.is_span {
            Value::from_text("span")
        } else {
            Value::Null
        };
        let module = match self.module {
            Some(p) => Value::from_text(p),
            None => Value::Null,
        };
        let mut map: KeyedMap<Value> = KeyedMap::new();
        map.insert("kind".to_string(), kind);
        map.insert("level".to_string(), Value::from_text(self.level));
        map.insert("module_path".to_string(), module);
        map.insert("target".to_string(), Value::from_text(self.target));
        map
    }
}

impl OtelLog {
    /// Converts the gathered fields of a `tracing` event into an `OtelLog`, at the time `now`, in
    /// nanoseconds since the Unix epoch.
    pub fn from_tracing_event(
        fields: OtelLogTracingBuilder,
        meta: &TracingMetadata<'_>,
        now: Option<i64>,
    ) -> (r: Self)
        ensures
            r@ == log_from_value(
                ValueView::Object(
                    with_entry(
                        with_entry(
                            fields@,
                            "time_unix_nano"@,
                            ValueView::Integer(
                                match now {
                                    Some(n) => n,
                                    None => 0,
                                },
                            ),
                        ),
                        "metadata"@,
                        ValueView::Object(meta.fields()),
                    ),
                ),
                r@.metadata,
            ),
            r@.metadata.is_default(),
    {
        let mut map = fields.map;
        let now: i64 = match now {
            Some(n) => n,
            None => 0,
        };
        map.insert("time_unix_nano".to_string(), Value::Integer(now));
        let metadata_map = meta.to_map();
        proof {
            lemma_object_view(metadata_map);
        }
        map.insert("metadata".to_string(), Value::Object(metadata_map));
        OtelLog::from_map(map, EventMetadata::default())
    }
}

} // verus!
