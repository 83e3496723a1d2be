//! The value as which a program sees a log or a span, and how such a value is turned back.
use vstd::prelude::*;

use crate::any_value::{
    any_from_value, any_value_to_vrl, kvlist_to_object_map, kvs_from_object, kvs_view,
    object_from_kvs, value_from_any, vrl_value_to_any_value, AnyView, KeyValue,
};
use crate::attributes::{object_from_attrs, OtelAttributes};
use crate::canonical::{full_resource, full_scope, int_or_zero, put_text, with_text};
use crate::hex::{hex_decode_value, hex_digits, hex_encode, hex_or_raw};
use crate::keyed::{opt_view, value_of, views, with_entry, without_entry, KeyedMap};
use crate::log::{OtelLog, OtelLogView};
use crate::log_value::{put_count, put_id, with_count, with_id};
use crate::metadata::{EventMetadata, MetadataView};
use crate::otlp::{
    InstrumentationScope, LogRecord, LogRecordView, Resource, ResourceView, ScopeView,
};
use crate::otlp_span::{
    Span, SpanEvent, SpanEventView, SpanLink, SpanLinkView, SpanView, Status, StatusView,
};
use crate::span::{OtelSpan, OtelSpanView};
use crate::span_value::fields_of;
use crate::text::{lossy, lossy_text};
use crate::time::{to_i32, to_i64, to_u32, to_u64, wrap_i32, wrap_i64, wrap_u32, wrap_u64};
use crate::value::{array_view, lemma_array_view, lemma_object_view, Value, ValueView};

verus! {

/// The text that a value is, with what is no UTF-8 replaced; empty where it is no text.
pub open spec fn lossy_or_empty(v: Option<ValueView>) -> Seq<char> {
    match v {
        Some(ValueView::Bytes(b)) => lossy(b),
        _ => Seq::empty(),
    }
}

/// The bytes that an identifier stands for; none where it is missing.
pub open spec fn id_or_empty(v: Option<ValueView>) -> Seq<u8> {
    match v {
        Some(v) => hex_or_raw(v),
        None => Seq::empty(),
    }
}

/// The named attributes that the fields of an object give; none where it is no object.
pub open spec fn kvs_or_empty(v: Option<ValueView>) -> Seq<(Seq<char>, Option<AnyView>)> {
    match v {
        Some(ValueView::Object(m)) => kvs_from_object(m),
        _ => Seq::empty(),
    }
}

/// The items of an array; none where it is no array.
pub open spec fn items_or_empty(v: Option<ValueView>) -> Seq<ValueView> {
    match v {
        Some(ValueView::Array(a)) => a,
        _ => Seq::empty(),
    }
}

fn integer_at(m: &KeyedMap<Value>, key: &str) -> (r: i64)
    ensures
        r == int_or_zero(value_of(m@, key@)),
{
    match m.get(key) {
        Some(Value::Integer(i)) => *i,
        _ => 0,
    }
}

fn text_at(m: &KeyedMap<Value>, key: &str) -> (r: String)
    ensures
        r@ == lossy_or_empty(value_of(m@, key@)),
{
    match m.get(key) {
        Some(Value::Bytes(b)) => lossy_text(b.as_slice()),
        _ => String::new(),
    }
}

fn id_at(m: &KeyedMap<Value>, key: &str) -> (r: Vec<u8>)
    ensures
        r@ == id_or_empty(value_of(m@, key@)),
{
    match m.get(key) {
        Some(v) => hex_decode_value(v),
        None => Vec::new(),
    }
}

/// The named attributes that the fields of an object give.
pub fn object_map_to_kvlist(m: &KeyedMap<Value>) -> (r: Vec<KeyValue>)
    ensures
        kvs_view(r@) == kvs_from_object(m@),
{
    let mut values: Vec<KeyValue> = Vec::new();
    let mut i: usize = 0;
    while i < m.entries.len()
        invariant
            i <= m.entries@.len(),
            values@.len() == i,
            forall|j: int|
                0 <= j < i ==> (#[trigger] values@[j])@ == (
                    m.entries@[j].0@,
                    Some(any_from_value(m.entries@[j].1@)),
                ),
        decreases m.entries@.len() - i,
    {
        let v = vrl_value_to_any_value(&m.entries[i].1);
        values.push(KeyValue { key: m.entries[i].0.clone(), value: Some(v) });
        i = i + 1;
    }
    assert(kvs_view(values@) =~= kvs_from_object(m@));
    values
}

fn kvs_at(m: &KeyedMap<Value>, key: &str) -> (r: Vec<KeyValue>)
    ensures
        kvs_view(r@) == kvs_or_empty(value_of(m@, key@)),
{
    match m.get(key) {
        Some(Value::Object(o)) => {
            proof {
                lemma_object_view(*o);
            }
            object_map_to_kvlist(o)
        },
        _ => {
            let r: Vec<KeyValue> = Vec::new();
            assert(kvs_view(r@) =~= Seq::empty());
            r
        },
    }
}

/// The object with an integer field.
pub open spec fn with_int(m: Seq<(Seq<char>, ValueView)>, key: Seq<char>, n: i64) -> Seq<
    (Seq<char>, ValueView),
> {
    with_entry(m, key, ValueView::Integer(n))
}

/// The object with a field for named attributes.
pub open spec fn with_kvs(
    m: Seq<(Seq<char>, ValueView)>,
    key: Seq<char>,
    kvs: Seq<(Seq<char>, Option<AnyView>)>,
) -> Seq<(Seq<char>, ValueView)> {
    with_entry(m, key, ValueView::Object(object_from_kvs(kvs)))
}

/// The object with a text field.
pub open spec fn with_str(m: Seq<(Seq<char>, ValueView)>, key: Seq<char>, text: Seq<char>) -> Seq<
    (Seq<char>, ValueView),
> {
    with_entry(m, key, ValueView::text(text))
}

/// The object with an identifier in hexadecimal notation.
pub open spec fn with_hex(m: Seq<(Seq<char>, ValueView)>, key: Seq<char>, id: Seq<u8>) -> Seq<
    (Seq<char>, ValueView),
> {
    with_entry(m, key, ValueView::Bytes(hex_digits(id)))
}

pub fn put_int(map: &mut KeyedMap<Value>, key: &str, n: i64)
    ensures
        final(map)@ == with_int(old(map)@, key@, n),
        old(map).wf() ==> final(map).wf(),
{
    map.insert(key.to_owned(), Value::Integer(n));
}

pub fn put_kvs(map: &mut KeyedMap<Value>, key: &str, kvs: &Vec<KeyValue>)
    ensures
        final(map)@ == with_kvs(old(map)@, key@, kvs_view(kvs@)),
        old(map).wf() ==> final(map).wf(),
{
    let o = kvlist_to_object_map(kvs);
    proof {
        lemma_object_view(o);
    }
    map.insert(key.to_owned(), Value::Object(o));
}

pub fn put_str(map: &mut KeyedMap<Value>, key: &str, text: &str)
    ensures
        final(map)@ == with_str(old(map)@, key@, text@),
        old(map).wf() ==> final(map).wf(),
{
    map.insert(key.to_owned(), Value::from_text(text));
}

pub fn put_hex(map: &mut KeyedMap<Value>, key: &str, id: &Vec<u8>)
    ensures
        final(map)@ == with_hex(old(map)@, key@, id@),
        old(map).wf() ==> final(map).wf(),
{
    map.insert(key.to_owned(), hex_encode(id));
}

pub fn put_value(map: &mut KeyedMap<Value>, key: &str, v: Value)
    ensures
        final(map)@ == with_entry(old(map)@, key@, v@),
        old(map).wf() ==> final(map).wf(),
{
    map.insert(key.to_owned(), v);
}

/// The object value with the given fields.
pub fn object_value(map: KeyedMap<Value>) -> (r: Value)
    ensures
        r@ == ValueView::Object(map@),
{
    proof {
        lemma_object_view(map);
    }
    Value::Object(map)
}

/// The object as which a resource is seen.
pub open spec fn resource_object(r: ResourceView) -> ValueView {
    ValueView::Object(
        with_int(
            with_kvs(Seq::empty(), "attributes"@, r.attributes),
            "dropped_attributes_count"@,
            r.dropped_attributes_count as i64,
        ),
    )
}

/// The object as which a resource is seen.
pub fn resource_to_value(resource: &Resource) -> (r: Value)
    ensures
        r@ == resource_object(resource@),
{
    let mut map = KeyedMap::<Value>::new();
    put_kvs(&mut map, "attributes", &resource.attributes);
    put_int(&mut map, "dropped_attributes_count", resource.dropped_attributes_count as i64);
    object_value(map)
}

/// The resource that an object gives.
pub open spec fn resource_seen(v: Option<ValueView>) -> Option<ResourceView> {
    match v {
        Some(ValueView::Object(m)) => Some(
            ResourceView {
                attributes: kvs_or_empty(value_of(m, "attributes"@)),
                dropped_attributes_count: wrap_u32(
                    int_or_zero(value_of(m, "dropped_attributes_count"@)) as int,
                ),
            },
        ),
        _ => None,
    }
}

/// The resource that an object gives.
pub fn value_to_resource(v: Option<&Value>) -> (r: Option<Resource>)
    ensures
        opt_view(r) == resource_seen(opt_view(v)),
{
    match v {
        Some(Value::Object(m)) => {
            proof {
                lemma_object_view(*m);
            }
            Some(
                Resource {
                    attributes: kvs_at(m, "attributes"),
                    dropped_attributes_count: to_u32(integer_at(m, "dropped_attributes_count")),
                },
            )
        },
        _ => None,
    }
}

/// The object as which a scope is seen.
pub open spec fn scope_object(s: ScopeView) -> ValueView {
    let m = with_str(Seq::empty(), "name"@, s.name);
    let m = with_str(m, "version"@, s.version);
    let m = with_kvs(m, "attributes"@, s.attributes);
    ValueView::Object(
        with_int(m, "dropped_attributes_count"@, s.dropped_attributes_count as i64),
    )
}

/// The object as which a scope is seen.
pub fn scope_to_value(scope: &InstrumentationScope) -> (r: Value)
    ensures
        r@ == scope_object(scope@),
{
    let mut map = KeyedMap::<Value>::new();
    put_str(&mut map, "name", scope.name.as_str());
    put_str(&mut map, "version", scope.version.as_str());
    put_kvs(&mut map, "attributes", &scope.attributes);
    put_int(&mut map, "dropped_attributes_count", scope.dropped_attributes_count as i64);
    object_value(map)
}

/// The scope that an object gives.
pub open spec fn scope_seen(v: Option<ValueView>) -> Option<ScopeView> {
    match v {
        Some(ValueView::Object(m)) => Some(
            ScopeView {
                name: lossy_or_empty(value_of(m, "name"@)),
                version: lossy_or_empty(value_of(m, "version"@)),
                attributes: kvs_or_empty(value_of(m, "attributes"@)),
                dropped_attributes_count: wrap_u32(
                    int_or_zero(value_of(m, "dropped_attributes_count"@)) as int,
                ),
            },
        ),
        _ => None,
    }
}

/// The scope that an object gives.
pub fn value_to_scope(v: Option<&Value>) -> (r: Option<InstrumentationScope>)
    ensures
        opt_view(r) == scope_seen(opt_view(v)),
{
    match v {
        Some(Value::Object(m)) => {
            proof {
                lemma_object_view(*m);
            }
            Some(
                InstrumentationScope {
                    name: text_at(m, "name"),
                    version: text_at(m, "version"),
                    attributes: kvs_at(m, "attributes"),
                    dropped_attributes_count: to_u32(integer_at(m, "dropped_attributes_count")),
                },
            )
        },
        _ => None,
    }
}

/// The object with a resource and a scope, as far as they are there.
pub open spec fn with_origin(
    m: Seq<(Seq<char>, ValueView)>,
    resource: Option<ResourceView>,
    scope: Option<ScopeView>,
) -> Seq<(Seq<char>, ValueView)> {
    let m = match resource {
        Some(r) => with_entry(m, "resource"@, resource_object(r)),
        None => m,
    };
    match scope {
        Some(s) => with_entry(m, "scope"@, scope_object(s)),
        None => m,
    }
}

pub fn put_origin(
    map: &mut KeyedMap<Value>,
    resource: Option<Resource>,
    scope: Option<InstrumentationScope>,
)
    ensures
        final(map)@ == with_origin(old(map)@, opt_view(resource), opt_view(scope)),
        old(map).wf() ==> final(map).wf(),
{
    if let Some(r) = &resource {
        put_value(map, "resource", resource_to_value(r));
    }
    if let Some(s) = &scope {
        put_value(map, "scope", scope_to_value(s));
    }
}

/// The object with a field for each attribute, whatever stood under its name.
pub open spec fn with_fields(m: Seq<(Seq<char>, ValueView)>, attrs: Seq<(Seq<char>, AnyView)>) -> Seq<
    (Seq<char>, ValueView),
>
    decreases attrs.len(),
{
    if attrs.len() == 0 {
        m
    } else {
        with_entry(
            with_fields(m, attrs.drop_last()),
            attrs.last().0,
            value_from_any(attrs.last().1),
        )
    }
}

fn put_fields(map: &mut KeyedMap<Value>, attrs: &OtelAttributes)
    ensures
        final(map)@ == with_fields(old(map)@, attrs@),
        old(map).wf() ==> final(map).wf(),
{
    let ghost before = map@;
    let ghost all = attrs@;
    let mut i: usize = 0;
    assert(all.take(0) =~= Seq::empty());
    while i < attrs.inner.entries.len()
        invariant
            i <= attrs.inner.entries@.len(),
            all == attrs@,
            map@ == with_fields(before, all.take(i as int)),
            old(map).wf() ==> map.wf(),
        decreases attrs.inner.entries@.len() - i,
    {
        assert(all.take(i + 1).drop_last() =~= all.take(i as int));
        map.insert(
            attrs.inner.entries[i].0.clone(),
            any_value_to_vrl(&attrs.inner.entries[i].1),
        );
        i = i + 1;
    }
    assert(all.take(i as int) =~= all);
}

impl OtelLogView {
    /// The fields as which a program sees the event. The attributes stand beside the fields of the
    /// record, and once more together in the field `attributes`.
    pub open spec fn seen(&self) -> Seq<(Seq<char>, ValueView)> {
        let r = self.record;
        let m = match r.body {
            Some(body) => with_entry(Seq::empty(), "body"@, value_from_any(body)),
            None => Seq::empty(),
        };
        let m = with_count(m, "severity_number"@, r.severity_number as i64);
        let m = with_text(m, "severity_text"@, r.severity_text);
        let m = with_count(m, "time_unix_nano"@, wrap_i64(r.time_unix_nano as int));
        let m = with_count(m, "observed_time_unix_nano"@, wrap_i64(r.observed_time_unix_nano as int));
        let m = with_id(m, "trace_id"@, r.trace_id);
        let m = with_id(m, "span_id"@, r.span_id);
        let m = with_count(m, "flags"@, r.flags as i64);
        let m = with_fields(m, self.record_attrs);
        let m = if self.record_attrs.len() == 0 {
            m
        } else {
            with_entry(m, "attributes"@, ValueView::Object(object_from_attrs(self.record_attrs)))
        };
        with_origin(
            m,
            full_resource(self.resource, self.resource_attrs),
            full_scope(self.scope, self.scope_attrs),
        )
    }
}

/// The value as which a program sees a log event.
///
/// The fields of the record become top-level keys. Its attributes are flattened into the top-level
/// object so that programs can use `.key` directly. The key `.body` holds the body. `.resource` and
/// `.scope` are nested objects.
pub fn log_to_value(event: &OtelLog) -> (r: Value)
    ensures
        r@ == ValueView::Object(event@.seen()),
{
    let mut map = KeyedMap::<Value>::new();
    if let Some(body) = &event.record.body {
        put_value(&mut map, "body", any_value_to_vrl(body));
    }
    put_count(&mut map, "severity_number", event.record.severity_number as i64);
    put_text(&mut map, "severity_text", event.record.severity_text.as_str());
    put_count(&mut map, "time_unix_nano", to_i64(event.record.time_unix_nano));
    put_count(&mut map, "observed_time_unix_nano", to_i64(event.record.observed_time_unix_nano));
    put_id(&mut map, "trace_id", &event.record.trace_id);
    put_id(&mut map, "span_id", &event.record.span_id);
    put_count(&mut map, "flags", event.record.flags as i64);
    put_fields(&mut map, &event.record_attrs);
    if !event.record_attrs.is_empty() {
        let attrs = event.record_attrs.to_object_map();
        put_value(&mut map, "attributes", object_value(attrs));
    }
    put_origin(&mut map, event.resource_proto(), event.scope_proto());
    object_value(map)
}

/// The fields of an object that have no place of their own in a log record.
pub open spec fn beside_log_fields(m: Seq<(Seq<char>, ValueView)>) -> Seq<(Seq<char>, ValueView)> {
    let m = without_entry(m, "body"@);
    let m = without_entry(m, "severity_number"@);
    let m = without_entry(m, "severity_text"@);
    let m = without_entry(m, "time_unix_nano"@);
    let m = without_entry(m, "observed_time_unix_nano"@);
    let m = without_entry(m, "trace_id"@);
    let m = without_entry(m, "span_id"@);
    let m = without_entry(m, "flags"@);
    let m = without_entry(m, "dropped_attributes_count"@);
    let m = without_entry(m, "attributes"@);
    let m = without_entry(m, "resource"@);
    without_entry(m, "scope"@)
}

/// The log record that the fields of an object give: those with a place of their own go there, and
/// all others are attributes. The field `attributes` is passed over.
pub open spec fn record_seen(m: Seq<(Seq<char>, ValueView)>) -> LogRecordView {
    LogRecordView {
        time_unix_nano: wrap_u64(int_or_zero(value_of(m, "time_unix_nano"@)) as int),
        observed_time_unix_nano: wrap_u64(
            int_or_zero(value_of(m, "observed_time_unix_nano"@)) as int,
        ),
        severity_number: wrap_i32(int_or_zero(value_of(m, "severity_number"@)) as int),
        severity_text: lossy_or_empty(value_of(m, "severity_text"@)),
        body: match value_of(m, "body"@) {
            Some(v) => Some(any_from_value(v)),
            None => None,
        },
        attributes: kvs_from_object(beside_log_fields(m)),
        dropped_attributes_count: wrap_u32(
            int_or_zero(value_of(m, "dropped_attributes_count"@)) as int,
        ),
        flags: wrap_u32(int_or_zero(value_of(m, "flags"@)) as int),
        trace_id: id_or_empty(value_of(m, "trace_id"@)),
        span_id: id_or_empty(value_of(m, "span_id"@)),
    }
}

/// The fields of an object; any other value is the only field, the body.
pub open spec fn log_fields(v: ValueView) -> Seq<(Seq<char>, ValueView)> {
    match v {
        ValueView::Object(m) => m,
        _ => with_entry(Seq::empty(), "body"@, v),
    }
}

/// The log event that a value is turned back into.
pub open spec fn log_seen(v: ValueView, metadata: MetadataView) -> OtelLogView {
    let m = log_fields(v);
    OtelLogView::of_parts(
        record_seen(m),
        resource_seen(value_of(m, "resource"@)),
        scope_seen(value_of(m, "scope"@)),
        metadata,
    )
}

/// Takes the fields with a place of their own in a log record out of an object.
fn take_log_fields(map: &mut KeyedMap<Value>)
    ensures
        final(map)@ == beside_log_fields(old(map)@),
{
    map.remove("body");
    map.remove("severity_number");
    map.remove("severity_text");
    map.remove("time_unix_nano");
    map.remove("observed_time_unix_nano");
    map.remove("trace_id");
    map.remove("span_id");
    map.remove("flags");
    map.remove("dropped_attributes_count");
    map.remove("attributes");
    map.remove("resource");
    map.remove("scope");
}

/// The log event that a value is turned back into.
///
/// Known fields are extracted into the record. All other top-level keys become its attributes.
pub fn value_to_log(value: Value, metadata: EventMetadata) -> (r: OtelLog)
    ensures
        r@ == log_seen(value@, metadata@),
{
    let mut map = match value {
        Value::Object(m) => {
            proof {
                lemma_object_view(m);
            }
            m
        },
        other => {
            let mut m = KeyedMap::<Value>::new();
            m.insert("body".to_owned(), other);
            m
        },
    };
    let ghost m = map@;
    let body = match map.get("body") {
        Some(v) => Some(vrl_value_to_any_value(v)),
        None => None,
    };
    let severity_number = to_i32(integer_at(&map, "severity_number"));
    let severity_text = text_at(&map, "severity_text");
    let time_unix_nano = to_u64(integer_at(&map, "time_unix_nano"));
    let observed_time_unix_nano = to_u64(integer_at(&map, "observed_time_unix_nano"));
    let trace_id = id_at(&map, "trace_id");
    let span_id = id_at(&map, "span_id");
    let flags = to_u32(integer_at(&map, "flags"));
    let dropped_attributes_count = to_u32(integer_at(&map, "dropped_attributes_count"));
    let resource = value_to_resource(map.get("resource"));
    let scope = value_to_scope(map.get("scope"));
    take_log_fields(&mut map);
    let record = LogRecord {
        body,
        severity_number,
        severity_text,
        time_unix_nano,
        observed_time_unix_nano,
        trace_id,
        span_id,
        flags,
        dropped_attributes_count,
        attributes: object_map_to_kvlist(&map),
    };
    assert(record@ =~= record_seen(m));
    OtelLog::from_parts(record, resource, scope, metadata)
}

/// The object as which an event of a span is seen.
pub open spec fn span_event_object(e: SpanEventView) -> ValueView {
    let m = with_int(Seq::empty(), "time_unix_nano"@, wrap_i64(e.time_unix_nano as int));
    let m = with_str(m, "name"@, e.name);
    let m = with_kvs(m, "attributes"@, e.attributes);
    ValueView::Object(
        with_int(m, "dropped_attributes_count"@, e.dropped_attributes_count as i64),
    )
}

fn span_event_to_value(e: &SpanEvent) -> (r: Value)
    ensures
        r@ == span_event_object(e@),
{
    let mut map = KeyedMap::<Value>::new();
    put_int(&mut map, "time_unix_nano", to_i64(e.time_unix_nano));
    put_str(&mut map, "name", e.name.as_str());
    put_kvs(&mut map, "attributes", &e.attributes);
    put_int(&mut map, "dropped_attributes_count", e.dropped_attributes_count as i64);
    object_value(map)
}

/// The object as which a link of a span is seen.
pub open spec fn span_link_object(l: SpanLinkView) -> ValueView {
    let m = with_hex(Seq::empty(), "trace_id"@, l.trace_id);
    let m = with_hex(m, "span_id"@, l.span_id);
    let m = with_str(m, "trace_state"@, l.trace_state);
    let m = with_kvs(m, "attributes"@, l.attributes);
    ValueView::Object(
        with_int(m, "dropped_attributes_count"@, l.dropped_attributes_count as i64),
    )
}

fn span_link_to_value(l: &SpanLink) -> (r: Value)
    ensures
        r@ == span_link_object(l@),
{
    let mut map = KeyedMap::<Value>::new();
    put_hex(&mut map, "trace_id", &l.trace_id);
    put_hex(&mut map, "span_id", &l.span_id);
    put_str(&mut map, "trace_state", l.trace_state.as_str());
    put_kvs(&mut map, "attributes", &l.attributes);
    put_int(&mut map, "dropped_attributes_count", l.dropped_attributes_count as i64);
    object_value(map)
}

/// The object as which the status of a span is seen.
pub open spec fn status_seen_as(s: StatusView) -> ValueView {
    ValueView::Object(
        with_int(with_str(Seq::empty(), "message"@, s.message), "code"@, s.code as i64),
    )
}

fn status_to_value(s: &Status) -> (r: Value)
    ensures
        r@ == status_seen_as(s@),
{
    let mut map = KeyedMap::<Value>::new();
    put_str(&mut map, "message", s.message.as_str());
    put_int(&mut map, "code", s.code as i64);
    object_value(map)
}

fn events_to_value(events: &Vec<SpanEvent>) -> (r: Value)
    ensures
        r@ == ValueView::Array(views(events@).map_values(|e: SpanEventView| span_event_object(e))),
{
    let mut out: Vec<Value> = Vec::new();
    let mut i: usize = 0;
    while i < events.len()
        invariant
            i <= events@.len(),
            out@.len() == i,
            forall|j: int| 0 <= j < i ==> (#[trigger] out@[j])@ == span_event_object(events@[j]@),
        decreases events@.len() - i,
    {
        out.push(span_event_to_value(&events[i]));
        i = i + 1;
    }
    proof {
        lemma_array_view(out);
        assert(array_view(out@) =~= views(events@).map_values(
            |e: SpanEventView| span_event_object(e),
        ));
    }
    Value::Array(out)
}

fn links_to_value(links: &Vec<SpanLink>) -> (r: Value)
    ensures
        r@ == ValueView::Array(views(links@).map_values(|l: SpanLinkView| span_link_object(l))),
{
    let mut out: Vec<Value> = Vec::new();
    let mut i: usize = 0;
    while i < links.len()
        invariant
            i <= links@.len(),
            out@.len() == i,
            forall|j: int| 0 <= j < i ==> (#[trigger] out@[j])@ == span_link_object(links@[j]@),
        decreases links@.len() - i,
    {
        out.push(span_link_to_value(&links[i]));
        i = i + 1;
    }
    proof {
        lemma_array_view(out);
        assert(array_view(out@) =~= views(links@).map_values(
            |l: SpanLinkView| span_link_object(l),
        ));
    }
    Value::Array(out)
}

impl OtelSpanView {
    /// The fields as which a program sees the event.
    pub open spec fn seen(&self) -> Seq<(Seq<char>, ValueView)> {
        let s = self.span;
        let m = with_hex(Seq::empty(), "trace_id"@, s.trace_id);
        let m = with_hex(m, "span_id"@, s.span_id);
        let m = with_str(m, "trace_state"@, s.trace_state);
        let m = with_hex(m, "parent_span_id"@, s.parent_span_id);
        let m = with_str(m, "name"@, s.name);
        let m = with_int(m, "kind"@, s.kind as i64);
        let m = with_int(m, "start_time_unix_nano"@, wrap_i64(s.start_time_unix_nano as int));
        let m = with_int(m, "end_time_unix_nano"@, wrap_i64(s.end_time_unix_nano as int));
        let m = with_entry(
            m,
            "attributes"@,
            ValueView::Object(object_from_attrs(self.span_attrs)),
        );
        let m = with_int(m, "dropped_attributes_count"@, s.dropped_attributes_count as i64);
        let m = with_entry(
            m,
            "events"@,
            ValueView::Array(s.events.map_values(|e: SpanEventView| span_event_object(e))),
        );
        let m = with_int(m, "dropped_events_count"@, s.dropped_events_count as i64);
        let m = with_entry(
            m,
            "links"@,
            ValueView::Array(s.links.map_values(|l: SpanLinkView| span_link_object(l))),
        );
        let m = with_int(m, "dropped_links_count"@, s.dropped_links_count as i64);
        let m = match s.status {
            Some(status) => with_entry(m, "status"@, status_seen_as(status)),
            None => m,
        };
        with_origin(
            m,
            full_resource(self.resource, self.resource_attrs),
            full_scope(self.scope, self.scope_attrs),
        )
    }
}

/// The value as which a program sees a span event.
pub fn span_to_value(event: &OtelSpan) -> (r: Value)
    ensures
        r@ == ValueView::Object(event@.seen()),
{
    let span = &event.span;
    let mut map = KeyedMap::<Value>::new();
    put_hex(&mut map, "trace_id", &span.trace_id);
    put_hex(&mut map, "span_id", &span.span_id);
    put_str(&mut map, "trace_state", span.trace_state.as_str());
    put_hex(&mut map, "parent_span_id", &span.parent_span_id);
    put_str(&mut map, "name", span.name.as_str());
    put_int(&mut map, "kind", span.kind as i64);
    put_int(&mut map, "start_time_unix_nano", to_i64(span.start_time_unix_nano));
    put_int(&mut map, "end_time_unix_nano", to_i64(span.end_time_unix_nano));
    put_value(&mut map, "attributes", object_value(event.span_attrs.to_object_map()));
    put_int(&mut map, "dropped_attributes_count", span.dropped_attributes_count as i64);
    put_value(&mut map, "events", events_to_value(&span.events));
    put_int(&mut map, "dropped_events_count", span.dropped_events_count as i64);
    put_value(&mut map, "links", links_to_value(&span.links));
    put_int(&mut map, "dropped_links_count", span.dropped_links_count as i64);
    if let Some(status) = &span.status {
        put_value(&mut map, "status", status_to_value(status));
    }
    put_origin(&mut map, event.resource_proto(), event.scope_proto());
    object_value(map)
}

/// The event of a span that an object gives.
pub open spec fn span_event_seen(m: Seq<(Seq<char>, ValueView)>) -> SpanEventView {
    SpanEventView {
        time_unix_nano: wrap_u64(int_or_zero(value_of(m, "time_unix_nano"@)) as int),
        name: lossy_or_empty(value_of(m, "name"@)),
        attributes: kvs_or_empty(value_of(m, "attributes"@)),
        dropped_attributes_count: wrap_u32(
            int_or_zero(value_of(m, "dropped_attributes_count"@)) as int,
        ),
    }
}

/// The events of a span that an array gives: one for each object in it.
pub open spec fn span_events_seen(items: Seq<ValueView>) -> Seq<SpanEventView>
    decreases items.len(),
{
    if items.len() == 0 {
        Seq::empty()
    } else {
        let before = span_events_seen(items.drop_last());
        match items.last() {
            ValueView::Object(m) => before.push(span_event_seen(m)),
            _ => before,
        }
    }
}

/// The link of a span that an object gives.
pub open spec fn span_link_seen(m: Seq<(Seq<char>, ValueView)>) -> SpanLinkView {
    SpanLinkView {
        trace_id: id_or_empty(value_of(m, "trace_id"@)),
        span_id: id_or_empty(value_of(m, "span_id"@)),
        trace_state: lossy_or_empty(value_of(m, "trace_state"@)),
        attributes: kvs_or_empty(value_of(m, "attributes"@)),
        dropped_attributes_count: wrap_u32(
            int_or_zero(value_of(m, "dropped_attributes_count"@)) as int,
        ),
        flags: wrap_u32(int_or_zero(value_of(m, "flags"@)) as int),
    }
}

/// The links of a span that an array gives: one for each object in it.
pub open spec fn span_links_seen(items: Seq<ValueView>) -> Seq<SpanLinkView>
    decreases items.len(),
{
    if items.len() == 0 {
        Seq::empty()
    } else {
        let before = span_links_seen(items.drop_last());
        match items.last() {
            ValueView::Object(m) => before.push(span_link_seen(m)),
            _ => before,
        }
    }
}

/// The status of a span that an object gives.
pub open spec fn status_seen(v: Option<ValueView>) -> Option<StatusView> {
    match v {
        Some(ValueView::Object(m)) => Some(
            StatusView {
                message: lossy_or_empty(value_of(m, "message"@)),
                code: wrap_i32(int_or_zero(value_of(m, "code"@)) as int),
            },
        ),
        _ => None,
    }
}

/// The span that the fields of an object give; other fields are passed over.
pub open spec fn span_seen_in(m: Seq<(Seq<char>, ValueView)>) -> SpanView {
    SpanView {
        trace_id: id_or_empty(value_of(m, "trace_id"@)),
        span_id: id_or_empty(value_of(m, "span_id"@)),
        trace_state: lossy_or_empty(value_of(m, "trace_state"@)),
        parent_span_id: id_or_empty(value_of(m, "parent_span_id"@)),
        flags: wrap_u32(int_or_zero(value_of(m, "flags"@)) as int),
        name: lossy_or_empty(value_of(m, "name"@)),
        kind: wrap_i32(int_or_zero(value_of(m, "kind"@)) as int),
        start_time_unix_nano: wrap_u64(int_or_zero(value_of(m, "start_time_unix_nano"@)) as int),
        end_time_unix_nano: wrap_u64(int_or_zero(value_of(m, "end_time_unix_nano"@)) as int),
        attributes: kvs_or_empty(value_of(m, "attributes"@)),
        dropped_attributes_count: wrap_u32(
            int_or_zero(value_of(m, "dropped_attributes_count"@)) as int,
        ),
        events: span_events_seen(items_or_empty(value_of(m, "events"@))),
        dropped_events_count: wrap_u32(int_or_zero(value_of(m, "dropped_events_count"@)) as int),
        links: span_links_seen(items_or_empty(value_of(m, "links"@))),
        dropped_links_count: wrap_u32(int_or_zero(value_of(m, "dropped_links_count"@)) as int),
        status: status_seen(value_of(m, "status"@)),
    }
}

/// The span event that a value is turned back into.
pub open spec fn span_seen(v: ValueView, metadata: MetadataView) -> OtelSpanView {
    let m = fields_of(v);
    OtelSpanView::of_parts(
        span_seen_in(m),
        resource_seen(value_of(m, "resource"@)),
        scope_seen(value_of(m, "scope"@)),
        metadata,
    )
}

fn span_event_from(m: &KeyedMap<Value>) -> (r: SpanEvent)
    ensures
        r@ == span_event_seen(m@),
{
    SpanEvent {
        time_unix_nano: to_u64(integer_at(m, "time_unix_nano")),
        name: text_at(m, "name"),
        attributes: kvs_at(m, "attributes"),
        dropped_attributes_count: to_u32(integer_at(m, "dropped_attributes_count")),
    }
}

fn span_link_from(m: &KeyedMap<Value>) -> (r: SpanLink)
    ensures
        r@ == span_link_seen(m@),
{
    SpanLink {
        trace_id: id_at(m, "trace_id"),
        span_id: id_at(m, "span_id"),
        trace_state: text_at(m, "trace_state"),
        attributes: kvs_at(m, "attributes"),
        dropped_attributes_count: to_u32(integer_at(m, "dropped_attributes_count")),
        flags: to_u32(integer_at(m, "flags")),
    }
}

fn events_at(m: &KeyedMap<Value>, key: &str) -> (r: Vec<SpanEvent>)
    ensures
        views(r@) == span_events_seen(items_or_empty(value_of(m@, key@))),
{
    let mut out: Vec<SpanEvent> = Vec::new();
    assert(views(out@) =~= Seq::empty());
    if let Some(Value::Array(a)) = m.get(key) {
        proof {
            lemma_array_view(*a);
        }
        let ghost all = array_view(a@);
        assert(all.take(0) =~= Seq::empty());
        let mut i: usize = 0;
        while i < a.len()
            invariant
                i <= a@.len(),
                all == array_view(a@),
                views(out@) == span_events_seen(all.take(i as int)),
            decreases a@.len() - i,
        {
            assert(all.take(i + 1).drop_last() =~= all.take(i as int));
            if let Value::Object(o) = &a[i] {
                proof {
                    lemma_object_view(*o);
                }
                let ghost before = views(out@);
                let e = span_event_from(o);
                out.push(e);
                assert(views(out@) =~= before.push(e@));
            }
            i = i + 1;
        }
        assert(all.take(i as int) =~= all);
    }
    out
}

fn links_at(m: &KeyedMap<Value>, key: &str) -> (r: Vec<SpanLink>)
    ensures
        views(r@) == span_links_seen(items_or_empty(value_of(m@, key@))),
{
    let mut out: Vec<SpanLink> = Vec::new();
    assert(views(out@) =~= Seq::empty());
    if let Some(Value::Array(a)) = m.get(key) {
        proof {
            lemma_array_view(*a);
        }
        let ghost all = array_view(a@);
        assert(all.take(0) =~= Seq::empty());
        let mut i: usize = 0;
        while i < a.len()
            invariant
                i <= a@.len(),
                all == array_view(a@),
                views(out@) == span_links_seen(all.take(i as int)),
            decreases a@.len() - i,
        {
            assert(all.take(i + 1).drop_last() =~= all.take(i as int));
            if let Value::Object(o) = &a[i] {
                proof {
                    lemma_object_view(*o);
                }
                let ghost before = views(out@);
                let l = span_link_from(o);
                out.push(l);
                assert(views(out@) =~= before.push(l@));
            }
            i = i + 1;
        }
        assert(all.take(i as int) =~= all);
    }
    out
}

fn status_at(m: &KeyedMap<Value>, key: &str) -> (r: Option<Status>)
    ensures
        opt_view(r) == status_seen(value_of(m@, key@)),
{
    match m.get(key) {
        Some(Value::Object(o)) => {
            proof {
                lemma_object_view(*o);
            }
            Some(Status { message: text_at(o, "message"), code: to_i32(integer_at(o, "code")) })
        },
        _ => None,
    }
}

/// The span event that a value is turned back into.
pub fn value_to_span(value: Value, metadata: EventMetadata) -> (r: OtelSpan)
    ensures
        r@ == span_seen(value@, metadata@),
{
    let map = match value {
        Value::Object(m) => {
            proof {
                lemma_object_view(m);
            }
            m
        },
        _ => KeyedMap::<Value>::new(),
    };
    let span = Span {
        trace_id: id_at(&map, "trace_id"),
        span_id: id_at(&map, "span_id"),
        trace_state: text_at(&map, "trace_state"),
        parent_span_id: id_at(&map, "parent_span_id"),
        name: text_at(&map, "name"),
        kind: to_i32(integer_at(&map, "kind")),
        start_time_unix_nano: to_u64(integer_at(&map, "start_time_unix_nano")),
        end_time_unix_nano: to_u64(integer_at(&map, "end_time_unix_nano")),
        attributes: kvs_at(&map, "attributes"),
        dropped_attributes_count: to_u32(integer_at(&map, "dropped_attributes_count")),
        events: events_at(&map, "events"),
        dropped_events_count: to_u32(integer_at(&map, "dropped_events_count")),
        links: links_at(&map, "links"),
        dropped_links_count: to_u32(integer_at(&map, "dropped_links_count")),
        status: status_at(&map, "status"),
        flags: to_u32(integer_at(&map, "flags")),
    };
    let resource = value_to_resource(map.get("resource"));
    let scope = value_to_scope(map.get("scope"));
    OtelSpan::from_parts(span, resource, scope, metadata)
}

} // verus!
