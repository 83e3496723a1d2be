use vector_core::any_value::{string_value, KeyValue};
use vector_core::json::{Json, JsonNumber};
use vector_core::keyed::KeyedMap;
use vector_core::log::OtelLog;
use vector_core::metadata::EventMetadata;
use vector_core::otlp::Resource;
use vector_core::otlp_span::{Span, SpanEvent, Status};
use vector_core::path::{OwnedSegment, OwnedTargetPath, OwnedValuePath, PathPrefix};
use vector_core::span::OtelSpan;
use vector_core::time::Timestamp;
use vector_core::value::Value;

fn path(fields: &[&str]) -> OwnedTargetPath {
    let mut segments = vec![];
    for field in fields {
        segments.push(OwnedSegment::Field(field.to_string()));
    }
    OwnedTargetPath { prefix: PathPrefix::Event, path: OwnedValuePath { segments } }
}

fn text(s: &str) -> Value {
    Value::from_text(s)
}

fn put(span: &mut OtelSpan, fields: &[&str], value: Value) -> Option<Value> {
    span.insert(&path(fields), value, "")
}

fn resource(key: &str, value: &str) -> Resource {
    Resource {
        attributes: vec![KeyValue { key: key.to_string(), value: Some(string_value(value)) }],
        dropped_attributes_count: 0,
    }
}

fn status(message: Option<&str>, code: i64) -> Value {
    let mut m = KeyedMap::new();
    if let Some(message) = message {
        m.insert("message".to_string(), text(message));
    }
    m.insert("code".to_string(), Value::Integer(code));
    Value::Object(m)
}

fn field<'a>(json: &'a Json, name: &str) -> &'a Json {
    match json {
        Json::Object(fields) => {
            for (key, value) in fields {
                if key == name {
                    return value;
                }
            }
            panic!("no field {name}")
        }
        _ => panic!("not an object"),
    }
}

fn item(json: &Json, i: usize) -> &Json {
    match json {
        Json::Array(items) => &items[i],
        _ => panic!("not an array"),
    }
}

fn string(json: &Json) -> &str {
    match json {
        Json::String(s) => s,
        _ => panic!("not a string"),
    }
}

fn integer(json: &Json) -> i64 {
    match json {
        Json::Number(JsonNumber { integer: Some(i), .. }) => *i,
        _ => panic!("not an integer"),
    }
}

#[test]
fn otel_span_event_typed_accessors() {
    let span = Span {
        name: "test-span".to_string(),
        trace_id: vec![1, 2, 3, 4, 5, 6, 7, 8, 9, 10, 11, 12, 13, 14, 15, 16],
        span_id: vec![1, 2, 3, 4, 5, 6, 7, 8],
        parent_span_id: vec![],
        start_time_unix_nano: 1000,
        end_time_unix_nano: 2000,
        kind: 2,
        ..Default::default()
    };
    let event = OtelSpan::new(span);

    assert_eq!(event.name(), "test-span");
    assert_eq!(event.trace_id().len(), 16);
    assert_eq!(event.span_id().len(), 8);
    assert!(event.parent_span_id().is_empty());
    assert_eq!(event.start_time_unix_nano(), 1000);
    assert_eq!(event.end_time_unix_nano(), 2000);
    assert_eq!(event.kind(), 2);
}

#[test]
fn otel_span_pre_epoch_timestamp_preserved_as_attribute() {
    let pre_epoch = Timestamp::parse_rfc3339("1960-01-01T00:00:00Z").unwrap();
    let mut event = OtelSpan::new(Span::default());
    put(&mut event, &["start_time"], Value::Timestamp(pre_epoch));
    put(&mut event, &["new_field"], text("v"));

    assert_eq!(event.start_time_unix_nano(), 0);
    let back = event.get(&path(&["start_time"]));
    let s = match back {
        Some(Value::Bytes(b)) => String::from_utf8(b).unwrap(),
        Some(Value::Timestamp(t)) => t.to_rfc3339(),
        other => panic!("expected Bytes or Timestamp, got {other:?}"),
    };
    assert!(
        s.starts_with("1960-01-01"),
        "pre-epoch start_time should survive as attribute; got {s:?}"
    );
}

#[test]
fn otel_span_insert_preserves_native_fields() {
    let span = Span {
        name: "test-span".to_string(),
        trace_id: vec![1, 2, 3, 4, 5, 6, 7, 8, 9, 10, 11, 12, 13, 14, 15, 16],
        span_id: vec![1, 2, 3, 4, 5, 6, 7, 8],
        parent_span_id: vec![9, 10, 11, 12, 13, 14, 15, 16],
        start_time_unix_nano: 1000,
        end_time_unix_nano: 2000,
        kind: 2,
        ..Default::default()
    };
    let mut event = OtelSpan::new(span);

    put(&mut event, &["new_field"], text("new_value"));

    assert_eq!(event.name(), "test-span");
    assert_eq!(event.trace_id().len(), 16);
    assert_eq!(event.span_id().len(), 8);
    assert_eq!(event.parent_span_id().len(), 8);
    assert_eq!(event.start_time_unix_nano(), 1000);
    assert_eq!(event.end_time_unix_nano(), 2000);
    assert_eq!(event.kind(), 2);
}

#[test]
fn span_fast_path_single_and_multi_segment() {
    let mut span_event = OtelSpan::new(Span {
        name: "GET /api".to_string(),
        trace_id: vec![0xAA; 16],
        span_id: vec![0xBB; 8],
        kind: 2,
        ..Default::default()
    });
    span_event.set_resource(resource("service.name", "my-svc"));

    assert_eq!(span_event.get(&path(&["name"])), Some(text("GET /api")));
    assert_eq!(span_event.get(&path(&["kind"])), Some(Value::Integer(2)));
    assert_eq!(span_event.get(&path(&["resource", "service.name"])), Some(text("my-svc")));

    put(&mut span_event, &["resource", "deployment.env"], text("staging"));
    assert_eq!(span_event.get(&path(&["resource", "deployment.env"])), Some(text("staging")));

    put(&mut span_event, &["http", "method"], text("GET"));
    assert_eq!(span_event.get(&path(&["http", "method"])), Some(text("GET")));

    put(&mut span_event, &["status"], status(Some("OK"), 1));
    assert_eq!(span_event.get(&path(&["status", "code"])), Some(Value::Integer(1)));
    assert_eq!(span_event.get(&path(&["status", "message"])), Some(text("OK")));
}

#[test]
fn otel_span_remove_single_and_multi_segment() {
    let mut span = OtelSpan::new(Span {
        name: "GET /api".to_string(),
        trace_id: vec![0xAA; 16],
        span_id: vec![0xBB; 8],
        kind: 2,
        flags: 1,
        start_time_unix_nano: 1_000_000_000,
        end_time_unix_nano: 2_000_000_000,
        ..Default::default()
    });
    span.set_attribute("http.method".to_string(), string_value("GET"));
    span.set_resource(resource("service.name", "my-svc"));
    put(&mut span, &["status"], status(Some("OK"), 1));

    let removed = span.remove(&path(&["name"]));
    assert_eq!(removed, Some(text("GET /api")));
    assert_eq!(span.name(), "");
    assert_eq!(span.remove(&path(&["name"])), None);

    let removed = span.remove(&path(&["kind"]));
    assert_eq!(removed, Some(Value::Integer(2)));
    assert_eq!(span.kind(), 0);

    let removed = span.remove(&path(&["flags"]));
    assert_eq!(removed, Some(Value::Integer(1)));

    let removed = span.remove(&path(&["start_time_unix_nano"]));
    assert_eq!(removed, Some(Value::Integer(1_000_000_000)));
    assert_eq!(span.start_time_unix_nano(), 0);

    let removed = span.remove(&path(&["end_time"]));
    assert!(removed.is_some());
    assert_eq!(span.end_time_unix_nano(), 0);

    let removed = span.remove(&path(&["http.method"]));
    assert_eq!(removed, Some(text("GET")));
    assert_eq!(span.attribute("http.method"), None);

    let removed = span.remove(&path(&["resource", "service.name"]));
    assert_eq!(removed, Some(text("my-svc")));

    let removed = span.remove(&path(&["status", "message"]));
    assert_eq!(removed, Some(text("OK")));
    assert_eq!(span.status().unwrap().message, "");

    let removed = span.remove(&path(&["status", "code"]));
    assert_eq!(removed, Some(Value::Integer(1)));

    put(&mut span, &["status"], status(None, 2));
    let removed = span.remove(&path(&["status"]));
    assert!(removed.is_some());
    assert!(span.status().is_none());

    let removed = span.remove(&path(&["trace_id"]));
    assert!(removed.is_some());
    assert!(span.trace_id().is_empty());

    let mut span2 = OtelSpan::new(Span::default());
    put(&mut span2, &["nested", "only_child"], text("value"));
    assert!(span2.attribute("nested").is_some());
    let removed = span2.remove_prune(&path(&["nested", "only_child"]), true);
    assert_eq!(removed, Some(text("value")));
    assert!(span2.attribute("nested").is_none(), "prune should remove empty parent");
}

#[test]
fn serialize_produces_otlp_json_for_span() {
    let span = Span {
        name: "GET /api".into(),
        trace_id: vec![0x11; 16],
        span_id: vec![0x22; 8],
        parent_span_id: vec![0x33; 8],
        start_time_unix_nano: 100,
        end_time_unix_nano: 200,
        kind: 2,
        status: Some(Status { code: 1, message: "OK".into() }),
        ..Default::default()
    };
    let mut otel_span =
        OtelSpan::from_parts(span, Some(resource("host", "box1")), None, EventMetadata::default());
    otel_span.span_attrs.insert("http.method".into(), string_value("GET"));

    let json = otel_span.to_json();

    assert_eq!(string(field(&json, "name")), "GET /api");
    assert_eq!(string(field(&json, "traceId")), "11111111111111111111111111111111");
    assert_eq!(string(field(&json, "spanId")), "2222222222222222");
    assert_eq!(string(field(&json, "parentSpanId")), "3333333333333333");
    assert_eq!(string(field(&json, "startTimeUnixNano")), "100");
    assert_eq!(string(field(&json, "endTimeUnixNano")), "200");
    assert_eq!(integer(field(&json, "kind")), 2);

    assert_eq!(integer(field(field(&json, "status"), "code")), 1);
    assert_eq!(string(field(field(&json, "status"), "message")), "OK");

    let attrs = field(&json, "attributes");
    assert_eq!(string(field(item(attrs, 0), "key")), "http.method");
    assert_eq!(string(field(field(item(attrs, 0), "value"), "stringValue")), "GET");

    let res_attrs = field(field(&json, "resource"), "attributes");
    assert_eq!(string(field(item(res_attrs, 0), "key")), "host");
    assert_eq!(string(field(field(item(res_attrs, 0), "value"), "stringValue")), "box1");
}

#[test]
fn a_span_can_be_rebuilt_from_its_map() {
    let span = OtelSpan::from_parts(
        Span {
            name: "GET /api".into(),
            trace_id: vec![0x11; 16],
            span_id: vec![0x22; 8],
            start_time_unix_nano: 100,
            end_time_unix_nano: 200,
            kind: 2,
            status: Some(Status { code: 1, message: "OK".into() }),
            ..Default::default()
        },
        Some(resource("host", "box1")),
        None,
        EventMetadata::default(),
    );
    let mut back = OtelSpan::new(Span::default());
    back.apply_value_map(span.to_value_canonical());
    assert!(back.event_data_eq(&span));
}

#[test]
fn native_instants_are_taken_from_the_map() {
    let mut m = KeyedMap::new();
    let ts = Timestamp::parse_rfc3339("2024-06-15T12:00:00Z").unwrap();
    m.insert("start_time".to_string(), Value::Timestamp(ts));
    let span = OtelSpan::from_value_map(Value::Object(m), EventMetadata::default());
    assert_eq!(span.start_time_unix_nano(), 1_718_452_800_000_000_000);
}

#[test]
fn a_log_becomes_a_span() {
    let mut log = OtelLog::from("span data");
    log.insert(&path(&["name"]), text("op"), "");
    log.insert(&path(&["trace_id"]), text("abcd"), "");
    let span = OtelSpan::from_otel_log(log);
    assert_eq!(span.attribute("name"), Some(&string_value("op")));
    assert_eq!(span.attribute("trace_id"), Some(&string_value("abcd")));
    assert_eq!(span.name(), "");
}

#[test]
fn spans_are_compared_by_their_data() {
    let a = OtelSpan::new(Span { name: "a".into(), ..Default::default() });
    let same = OtelSpan::new(Span { name: "a".into(), ..Default::default() });
    assert!(a.event_data_eq(&same));
    let other = OtelSpan::new(Span {
        name: "a".into(),
        events: vec![SpanEvent { name: "e".into(), ..Default::default() }],
        ..Default::default()
    });
    assert!(!a.event_data_eq(&other));
}

#[test]
fn emptied_parents_of_spans_are_pruned() {
    for parent in [vec!["resource", "k8s"], vec!["scope", "attributes", "k8s"], vec!["k8s"]] {
        let mut span = OtelSpan::new(Span::default());
        let mut child = parent.clone();
        child.push("pod");
        put(&mut span, &child, text("p"));
        assert_eq!(span.remove_prune(&path(&child), true), Some(text("p")));
        assert_eq!(span.get(&path(&parent)), None);
    }
}
