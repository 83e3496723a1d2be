//! Log events that are put together from others, and the text of their bodies.
use vstd::prelude::*;
use vstd::std_specs::convert::FromSpecImpl;

use crate::any_value::{kvs_view, lemma_any_kvlist_view, AnyValue, AnyView, OtelValueKind};
use crate::keyed::{value_of, KeyedMap};
use crate::log::{any_from_bytes, OtelLog, OtelLogView};
use crate::log_path::path_names;
use crate::log_value::log_from_value;
use crate::metadata::EventMetadata;
use crate::otlp::{LogRecord, LogRecordView};
use crate::path::OwnedTargetPath;
use crate::text::{i64_text, lossy, lossy_text, signed_decimal, str_eq, text_bytes};
use crate::value::{Value, ValueView};

verus! {

/// The text of a body. Of a double, an array and a list of key-value pairs it is the one given as
/// `rendered`.
pub open spec fn body_text(body: Option<AnyView>, rendered: Seq<char>) -> Seq<char> {
    match body {
        None => Seq::empty(),
        Some(AnyView::Empty) => Seq::empty(),
        Some(AnyView::Str(s)) => s,
        Some(AnyView::Bool(b)) => if b {
            "true"@
        } else {
            "false"@
        },
        Some(AnyView::Int(i)) => signed_decimal(i as int),
        Some(AnyView::Bytes(b)) => lossy(b),
        Some(_) => rendered,
    }
}

/// The body after another one was merged into it: texts are concatenated, and where there is no body
/// yet, the other one is taken.
pub open spec fn merged_body(body: Option<AnyView>, incoming: Option<AnyView>) -> Option<AnyView> {
    match (body, incoming) {
        (Some(AnyView::Str(a)), Some(AnyView::Str(b))) => Some(AnyView::Str(a + b)),
        (None, _) => incoming,
        _ => body,
    }
}

/// Two log events, after the named fields of the second were moved into the first: where the first
/// has such a field too, byte strings are concatenated, and other values replaced.
pub open spec fn fields_merged(
    into: OtelLogView,
    from: OtelLogView,
    fields: Seq<Seq<char>>,
) -> (OtelLogView, OtelLogView)
    decreases fields.len(),
{
    if fields.len() == 0 {
        (into, from)
    } else {
        let (a, b) = fields_merged(into, from, fields.drop_last());
        let field = fields.last();
        match b.replaced(field) {
            None => (a, b.without_field(field)),
            Some(v) => {
                let merged = match a.field(field) {
                    None => v,
                    Some(current) => current.merged(v),
                };
                (a.with_field(field, merged, Seq::empty()), b.without_field(field))
            },
        }
    }
}

/// The texts of a list.
pub open spec fn texts(list: Seq<&str>) -> Seq<Seq<char>> {
    Seq::new(list.len(), |i: int| list[i]@)
}

/// Whether a list of key-value pairs holds a key.
pub open spec fn lists_key(kvs: Seq<(Seq<char>, Option<AnyView>)>, key: Seq<char>) -> bool {
    exists|i: int| 0 <= i < kvs.len() && (#[trigger] kvs[i]).0 == key
}

impl OtelLog {
    /// Return the body as a human-readable string, suitable for text-oriented
    /// serializers. Of a double, an array and a list of key-value pairs it is the one given as
    /// `rendered`.
    pub fn body_string(&self, rendered: &str) -> (r: String)
        ensures
            r@ == body_text(self@.record.body, rendered@),
    {
        match &self.record.body {
            None => String::new(),
            Some(body) => match &body.value {
                None => String::new(),
                Some(OtelValueKind::StringValue(s)) => s.clone(),
                Some(OtelValueKind::BoolValue(b)) => if *b {
                    "true".to_owned()
                } else {
                    "false".to_owned()
                },
                Some(OtelValueKind::IntValue(i)) => i64_text(*i),
                Some(OtelValueKind::BytesValue(b)) => lossy_text(b.as_slice()),
                Some(_) => rendered.to_owned(),
            },
        }
    }

    /// Merge another OtelLog's body into this one (concatenate string bodies).
    /// Used for partial line merging (e.g. Docker logs).
    /// `metadata` is the metadata of this event with that of the other one merged into it.
    pub fn merge_body(&mut self, incoming: &OtelLog, metadata: EventMetadata)
        ensures
            final(self)@ == (OtelLogView {
                record: LogRecordView {
                    body: merged_body(old(self)@.record.body, incoming@.record.body),
                    ..old(self)@.record
                },
                metadata: metadata@,
                ..old(self)@
            }),
    {
        let body = match (&self.record.body, &incoming.record.body) {
            (Some(a), Some(b)) => match (&a.value, &b.value) {
                (
                    Some(OtelValueKind::StringValue(s)),
                    Some(OtelValueKind::StringValue(t)),
                ) => {
                    let mut merged = s.clone();
                    merged.append(t.as_str());
                    Some(AnyValue { value: Some(OtelValueKind::StringValue(merged)) })
                },
                _ => Some(a.clone()),
            },
            (Some(a), None) => Some(a.clone()),
            (None, Some(b)) => Some(b.clone()),
            (None, None) => None,
        };
        self.record.body = body;
        self.metadata = metadata;
    }

    /// Merge fields from `incoming` into this log, concatenating byte values for specified fields.
    /// `metadata` is the metadata of this event with that of the other one merged into it.
    pub fn merge(&mut self, incoming: OtelLog, fields: &[&str], metadata: EventMetadata)
        ensures
            final(self)@ == (OtelLogView {
                metadata: metadata@,
                ..fields_merged(old(self)@, incoming@, texts(fields@)).0
            }),
    {
        let mut incoming = incoming;
        let ghost all = texts(fields@);
        let ghost from = incoming@;
        assert(all.take(0) =~= Seq::empty());
        let mut i: usize = 0;
        while i < fields.len()
            invariant
                i <= fields@.len(),
                all == texts(fields@),
                (self@, incoming@) == fields_merged(old(self)@, from, all.take(i as int)),
            decreases fields@.len() - i,
        {
            let field: &str = fields[i];
            assert(all.take(i + 1).drop_last() =~= all.take(i as int));
            assert(all.take(i + 1).last() == field@);
            let path = OwnedTargetPath::event_field(field);
            assert(path_names(path@.path)[0] == field@);
            if let Some(incoming_val) = incoming.remove(&path) {
                let merged = match self.get(&path) {
                    None => incoming_val,
                    Some(mut current) => {
                        current.merge(incoming_val);
                        current
                    },
                };
                proof {
                    reveal_strlit("");
                    assert(""@ =~= Seq::empty());
                }
                self.insert(&path, merged, "");
            }
            i = i + 1;
        }
        assert(all.take(i as int) =~= all);
        self.metadata = metadata;
    }

    /// Returns `true` if the body is a KvList that contains `key`, or if `key`
    /// exists as a record attribute.  This is the appropriate check before
    /// writing a header value so that body fields always take precedence.
    pub fn has_field(&self, key: &str) -> (r: bool)
        ensures
            r == (value_of(self@.record_attrs, key@) is Some || (
            self@.record.body matches Some(AnyView::Kvlist(kvs)) && lists_key(kvs, key@))),
    {
        if self.attribute(key).is_some() {
            return true;
        }
        if let Some(body) = &self.record.body {
            if let Some(OtelValueKind::KvlistValue(list)) = &body.value {
                proof {
                    lemma_any_kvlist_view(*list);
                }
                let ghost kvs = kvs_view(list.values@);
                let mut i: usize = 0;
                while i < list.values.len()
                    invariant
                        i <= list.values@.len(),
                        kvs == kvs_view(list.values@),
                        self@.record.body == Some(AnyView::Kvlist(kvs)),
                        forall|j: int| 0 <= j < i ==> (#[trigger] kvs[j]).0 != key@,
                    decreases list.values@.len() - i,
                {
                    assert(kvs[i as int] == list.values@[i as int]@);
                    if str_eq(list.values[i].key.as_str(), key) {
                        return true;
                    }
                    i = i + 1;
                }
            }
        }
        false
    }

    /// A log event with a text as its body, at the time `now`, in nanoseconds since the Unix epoch.
    pub fn from_str_legacy(msg: &str, now: Option<i64>) -> (r: Self)
        ensures
            r@ == OtelLogView::of_body(AnyView::Str(msg@), r@.metadata).with_time(
                match now {
                    Some(n) => if n > 0 {
                        n as u64
                    } else {
                        0
                    },
                    None => 0,
                },
            ),
            r@.metadata.is_default(),
    {
        let mut log = OtelLog::from(msg);
        log.record.time_unix_nano = match now {
            Some(n) => if n > 0 {
                n as u64
            } else {
                0
            },
            None => 0,
        };
        log
    }
}

impl Default for OtelLog {
    fn default() -> (r: Self)
        ensures
            r@ == OtelLogView::of_record(LogRecordView::default_view(), r@.metadata),
            r@.metadata.is_default(),
    {
        OtelLog::new(LogRecord::default())
    }
}

impl From<&str> for OtelLog {
    fn from(s: &str) -> (r: Self)
        ensures
            r@ == OtelLogView::of_body(AnyView::Str(s@), r@.metadata),
            r@.metadata.is_default(),
    {
        broadcast use vstd::utf8::group_utf8_lib;
        OtelLog::from_bytes(text_bytes(s))
    }
}

impl FromSpecImpl<&str> for OtelLog {
    open spec fn obeys_from_spec() -> bool {
        false
    }

    open spec fn from_spec(s: &str) -> Self {
        arbitrary()
    }
}

impl From<String> for OtelLog {
    fn from(s: String) -> (r: Self)
        ensures
            r@ == OtelLogView::of_body(AnyView::Str(s@), r@.metadata),
            r@.metadata.is_default(),
    {
        OtelLog::from(s.as_str())
    }
}

impl FromSpecImpl<String> for OtelLog {
    open spec fn obeys_from_spec() -> bool {
        false
    }

    open spec fn from_spec(s: String) -> Self {
        arbitrary()
    }
}

impl From<Vec<u8>> for OtelLog {
    fn from(b: Vec<u8>) -> (r: Self)
        ensures
            r@ == OtelLogView::of_body(any_from_bytes(b@), r@.metadata),
            r@.metadata.is_default(),
    {
        OtelLog::from_bytes(b)
    }
}

impl FromSpecImpl<Vec<u8>> for OtelLog {
    open spec fn obeys_from_spec() -> bool {
        false
    }

    open spec fn from_spec(b: Vec<u8>) -> Self {
        arbitrary()
    }
}

impl From<Value> for OtelLog {
    fn from(value: Value) -> (r: Self)
        ensures
            r@ == log_from_value(value@, r@.metadata),
            r@.metadata.is_default(),
    {
        OtelLog::from_value_map(value, EventMetadata::default())
    }
}

impl FromSpecImpl<Value> for OtelLog {
    open spec fn obeys_from_spec() -> bool {
        false
    }

    open spec fn from_spec(value: Value) -> Self {
        arbitrary()
    }
}

impl From<KeyedMap<Value>> for OtelLog {
    fn from(map: KeyedMap<Value>) -> (r: Self)
        ensures
            r@ == log_from_value(ValueView::Object(map@), r@.metadata),
            r@.metadata.is_default(),
    {
        OtelLog::from_map(map, EventMetadata::default())
    }
}

impl FromSpecImpl<KeyedMap<Value>> for OtelLog {
    open spec fn obeys_from_spec() -> bool {
        false
    }

    open spec fn from_spec(map: KeyedMap<Value>) -> Self {
        arbitrary()
    }
}

} // verus!
