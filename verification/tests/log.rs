use vector_core::any_value::{int_value, string_value, AnyValue, KeyValue, OtelValueKind};
use vector_core::event::Event;
use vector_core::json::{Json, JsonNumber};
use vector_core::keyed::KeyedMap;
use vector_core::log::OtelLog;
use vector_core::metadata::EventMetadata;
use vector_core::metric::OtelMetric;
use vector_core::otlp::{InstrumentationScope, LogRecord, Resource};
use vector_core::otlp_metric::Metric;
use vector_core::otlp_span::Span;
use vector_core::path::{OwnedSegment, OwnedTargetPath, OwnedValuePath, PathPrefix};
use vector_core::path_text::{parse_target_path, two_field_path, PathParseError};
use vector_core::span::OtelSpan;
use vector_core::time::Timestamp;
use vector_core::tracing_event::{OtelLogTracingBuilder, TracingMetadata};
use vector_core::value::Value;

fn path(fields: &[&str]) -> OwnedTargetPath {
    let mut segments = vec![];
    for field in fields {
        segments.push(OwnedSegment::Field(field.to_string()));
    }
    OwnedTargetPath { prefix: PathPrefix::Event, path: OwnedValuePath { segments } }
}

fn text(s: &str) -> Value {
    Value::from_text(s)
}

fn put(log: &mut OtelLog, fields: &[&str], value: Value) -> Option<Value> {
    log.insert(&path(fields), value, "")
}

fn instant(s: &str) -> Timestamp {
    Timestamp::parse_rfc3339(s).unwrap()
}

fn attribute(key: &str, value: &str) -> KeyValue {
    KeyValue { key: key.to_string(), value: Some(string_value(value)) }
}

fn resource(key: &str, value: &str) -> Resource {
    Resource { attributes: vec![attribute(key, value)], dropped_attributes_count: 0 }
}

fn field<'a>(json: &'a Json, name: &str) -> &'a Json {
    match json {
        Json::Object(fields) => {
            for (key, value) in fields {
                if key == name {
                    return value;
                }
            }
            panic!("no field {name}")
        }
        _ => panic!("not an object"),
    }
}

fn item(json: &Json, i: usize) -> &Json {
    match json {
        Json::Array(items) => &items[i],
        _ => panic!("not an array"),
    }
}

fn items(json: &Json) -> usize {
    match json {
        Json::Array(items) => items.len(),
        _ => panic!("not an array"),
    }
}

fn string(json: &Json) -> &str {
    match json {
        Json::String(s) => s,
        _ => panic!("not a string"),
    }
}

fn integer(json: &Json) -> i64 {
    match json {
        Json::Number(JsonNumber { integer: Some(i), .. }) => *i,
        _ => panic!("not an integer"),
    }
}

#[test]
fn otel_log_event_default_fields() {
    let event = OtelLog::new(LogRecord::default());
    assert_eq!(event.time_unix_nano(), 0);
    assert_eq!(event.severity_text(), "");
    assert!(event.body().is_none());
    assert!(event.trace_id().is_empty());
    assert!(event.attributes().is_empty());
    assert!(event.resource().is_none());
    assert!(event.scope().is_none());
}

#[test]
fn otel_log_event_attribute_crud() {
    let mut event = OtelLog::new(LogRecord::default());

    let value = AnyValue { value: Some(OtelValueKind::StringValue("bar".to_string())) };

    assert!(event.attribute("foo").is_none());

    event.set_attribute("foo".to_string(), value.clone());
    assert_eq!(event.attribute("foo"), Some(&value));

    let new_value = AnyValue { value: Some(OtelValueKind::IntValue(42)) };
    event.set_attribute("foo".to_string(), new_value.clone());
    assert_eq!(event.attribute("foo"), Some(&new_value));

    let removed = event.remove_attribute("foo");
    assert_eq!(removed, Some(new_value));
    assert!(event.attribute("foo").is_none());
}

#[test]
fn otel_log_event_resource_attribute() {
    let mut event = OtelLog::new(LogRecord::default());
    assert!(event.resource_attribute("host.name").is_none());

    let host = AnyValue { value: Some(OtelValueKind::StringValue("myhost".to_string())) };
    event.set_resource(Resource {
        attributes: vec![KeyValue { key: "host.name".to_string(), value: Some(host.clone()) }],
        dropped_attributes_count: 0,
    });
    assert_eq!(event.resource_attribute("host.name"), Some(&host));
}

#[test]
fn event_data_eq_works() {
    let a = OtelLog::new(LogRecord::default());
    let b = OtelLog::new(LogRecord::default());
    assert!(a.event_data_eq(&b));

    let mut c = OtelLog::new(LogRecord::default());
    c.record.severity_text = "ERROR".to_string();
    assert!(!a.event_data_eq(&c));
}

#[test]
fn event_count_is_one() {
    assert_eq!(Event::Log(OtelLog::new(LogRecord::default())).event_count(), 1);
    assert_eq!(Event::Trace(OtelSpan::new(Span::default())).event_count(), 1);
    assert_eq!(Event::Metric(OtelMetric::new(Metric::default())).event_count(), 1);
}

#[test]
fn from_parts_round_trip() {
    let record = LogRecord { severity_text: "INFO".to_string(), ..Default::default() };
    let resource = Some(Resource { attributes: vec![], dropped_attributes_count: 0 });
    let scope = Some(InstrumentationScope { name: "my-lib".to_string(), ..Default::default() });
    let metadata = EventMetadata::default();

    let event = OtelLog::from_parts(record.clone(), resource.clone(), scope.clone(), metadata);
    let (r, res, sc, _meta) = event.into_parts();
    assert_eq!(r.severity_text, "INFO");
    assert_eq!(res, resource);
    assert_eq!(sc.as_ref().map(|s| s.name.as_str()), Some("my-lib"));
}

#[test]
fn legacy_layout_projects_fields() {
    let mut event = OtelLog::new(LogRecord {
        body: Some(string_value("hello world")),
        severity_text: "ERROR".into(),
        severity_number: 17,
        time_unix_nano: 1_700_000_000_000_000_000,
        trace_id: vec![0xab, 0xcd],
        span_id: vec![0x12, 0x34],
        attributes: vec![attribute("env", "prod")],
        ..Default::default()
    });
    event.set_resource(resource("service.name", "my-svc"));
    event.set_scope(InstrumentationScope {
        name: "my-lib".into(),
        version: "1.0".into(),
        ..Default::default()
    });

    let value = event.to_value_canonical();
    let map = match &value {
        Value::Object(map) => map,
        _ => panic!("expected object"),
    };
    assert_eq!(map.get("body"), Some(&text("hello world")));
    assert_eq!(map.get("severity_text"), Some(&text("ERROR")));
    assert_eq!(map.get("severity_number"), Some(&Value::Integer(17)));
    assert_eq!(map.get("time_unix_nano"), Some(&Value::Integer(1_700_000_000_000_000_000)));
    assert_eq!(map.get("trace_id"), Some(&text("abcd")));
    assert_eq!(map.get("span_id"), Some(&text("1234")));
    assert_eq!(map.get("env"), Some(&text("prod")));
    assert!(matches!(map.get("resource"), Some(Value::Object(_))));
    assert!(matches!(map.get("scope"), Some(Value::Object(_))));
}

#[test]
fn body_string_returns_body_text() {
    let event = OtelLog::new(LogRecord {
        body: Some(string_value("test body")),
        ..Default::default()
    });
    assert_eq!(event.body_string(""), "test body");

    let empty = OtelLog::new(LogRecord::default());
    assert_eq!(empty.body_string(""), "");

    let int_body = OtelLog::new(LogRecord { body: Some(int_value(42)), ..Default::default() });
    assert_eq!(int_body.body_string(""), "42");
}

#[test]
fn otel_log_serializes_as_otlp_json() {
    let record = LogRecord {
        severity_text: "INFO".to_string(),
        body: Some(string_value("hello")),
        ..Default::default()
    };
    let event = OtelLog::from_parts(
        record,
        Some(resource("service.name", "test-svc")),
        None,
        EventMetadata::default(),
    );
    let v = event.to_json();
    assert_eq!(string(field(field(&v, "body"), "stringValue")), "hello");
    assert_eq!(string(field(&v, "severityText")), "INFO");
    let attributes = field(field(&v, "resource"), "attributes");
    assert!(matches!(attributes, Json::Array(_)));
    assert_eq!(string(field(item(attributes, 0), "key")), "service.name");
    assert_eq!(string(field(field(item(attributes, 0), "value"), "stringValue")), "test-svc");
}

#[test]
fn serialize_produces_otlp_json_for_log() {
    let record = LogRecord {
        severity_text: "WARN".into(),
        severity_number: 13,
        time_unix_nano: 1_000_000_000,
        observed_time_unix_nano: 2_000_000_000,
        trace_id: vec![0xab; 16],
        span_id: vec![0xcd; 8],
        body: Some(string_value("test body")),
        ..Default::default()
    };
    let scope = Some(InstrumentationScope {
        name: "my-lib".into(),
        version: "1.0".into(),
        ..Default::default()
    });
    let mut log = OtelLog::from_parts(
        record,
        Some(resource("service.name", "svc")),
        scope,
        EventMetadata::default(),
    );
    log.record_attrs.insert("custom.attr".into(), string_value("val"));

    let json = log.to_json();

    assert_eq!(string(field(field(&json, "body"), "stringValue")), "test body");
    assert_eq!(string(field(&json, "severityText")), "WARN");
    assert_eq!(integer(field(&json, "severityNumber")), 13);
    assert_eq!(string(field(&json, "timeUnixNano")), "1000000000");
    assert_eq!(string(field(&json, "observedTimeUnixNano")), "2000000000");
    assert_eq!(string(field(&json, "traceId")), "abababababababababababababababab");
    assert_eq!(string(field(&json, "spanId")), "cdcdcdcdcdcdcdcd");

    let attrs = field(&json, "attributes");
    assert_eq!(items(attrs), 1);
    assert_eq!(string(field(item(attrs, 0), "key")), "custom.attr");
    assert_eq!(string(field(field(item(attrs, 0), "value"), "stringValue")), "val");

    let res_attrs = field(field(&json, "resource"), "attributes");
    assert_eq!(string(field(item(res_attrs, 0), "key")), "service.name");
    assert_eq!(string(field(field(item(res_attrs, 0), "value"), "stringValue")), "svc");

    assert_eq!(string(field(field(&json, "scope"), "name")), "my-lib");
    assert_eq!(string(field(field(&json, "scope"), "version")), "1.0");
}

#[test]
fn set_timestamp_and_try_set_timestamp() {
    let mut log = OtelLog::from("hello");
    assert!(log.get_timestamp().is_none());

    let ts1 = instant("2024-06-15T12:00:00Z");
    let old = log.set_timestamp(ts1);
    assert!(old.is_none());
    assert_eq!(log.get_timestamp(), Some(Value::Timestamp(ts1)));

    let ts2 = instant("2025-01-01T00:00:00Z");
    let old = log.set_timestamp(ts2);
    assert_eq!(old, Some(Value::Timestamp(ts1)));
    assert_eq!(log.get_timestamp(), Some(Value::Timestamp(ts2)));

    let ts3 = instant("2026-03-03T03:03:03Z");
    log.try_set_timestamp(ts3);
    assert_eq!(log.get_timestamp(), Some(Value::Timestamp(ts2)));

    log.remove_timestamp();
    log.try_set_timestamp(ts3);
    assert_eq!(log.get_timestamp(), Some(Value::Timestamp(ts3)));
}

#[test]
fn get_by_meaning_resolves_schema_meaning() {
    let mut event = OtelLog::from("test body");
    event.insert(
        &parse_target_path("@timestamp").unwrap(),
        text("2001-02-03T04:05:06Z"),
        "",
    );
    event.metadata_mut().value_mut().insert(&two_field_path("vector", "ns"), text("true"));

    let mut meanings = KeyedMap::new();
    meanings.insert("timestamp".to_string(), parse_target_path("@timestamp").unwrap());
    event.metadata_mut().schema_definition.add_meanings(&meanings);

    let val = event.get_by_meaning("timestamp");
    assert!(val.is_some(), "expected Some, got None");
    assert_eq!(val.unwrap(), text("2001-02-03T04:05:06Z"));

    assert!(event.get_by_meaning("nonexistent").is_none());
}

#[test]
fn from_tracing_event_produces_expected_fields() {
    let mut fields = OtelLogTracingBuilder::default();
    fields.record_debug("message", "static msg");
    fields.record_str("message", "hello");
    fields.record_i64("count", 42);
    fields.record_bool("ready", true);
    let meta = TracingMetadata {
        is_event: true,
        is_span: false,
        level: "INFO",
        module: Some("log"),
        target: "log",
    };
    let ol = OtelLog::from_tracing_event(fields, &meta, Some(1_700_000_000_000_000_000));

    assert_eq!(ol.get(&path(&["metadata", "level"])), Some(text("INFO")));
    assert_eq!(ol.get(&path(&["metadata", "target"])), Some(text("log")));
    assert_eq!(ol.get(&path(&["metadata", "module_path"])), Some(text("log")));
    assert_eq!(ol.get(&path(&["metadata", "kind"])), Some(text("event")));
    assert_eq!(ol.get(&path(&["count"])), Some(Value::Integer(42)));
    assert_eq!(ol.get(&path(&["ready"])), Some(Value::Boolean(true)));
    assert_eq!(
        ol.get(&path(&["time_unix_nano"])),
        Some(Value::Integer(1_700_000_000_000_000_000))
    );
}

#[test]
fn insert_preserves_body_via_round_trip() {
    let mut event = OtelLog::new(LogRecord {
        body: Some(string_value("hello")),
        ..Default::default()
    });
    put(&mut event, &["new_field"], text("new_value"));
    assert_eq!(event.get(&path(&["body"])), Some(text("hello")));
    assert_eq!(event.get(&path(&["new_field"])), Some(text("new_value")));
}

#[test]
fn insert_preserves_source_type_resource_attr() {
    let mut event = OtelLog::new(LogRecord::default());
    event.set_resource(resource("source_type", "syslog"));
    put(&mut event, &["another"], text("x"));
    assert_eq!(event.get(&path(&["resource", "source_type"])), Some(text("syslog")));
}

#[test]
fn otel_log_with_tags_array_preserves_field_access() {
    let mut otel = OtelLog::from("msg");
    put(&mut otel, &["tags"], Value::Array(vec![text("a:foo")]));

    let tags = otel.get(&path(&["tags"]));
    assert!(tags.is_some(), "tags field must be accessible after insert");
    match tags.unwrap() {
        Value::Array(arr) => {
            assert_eq!(arr.len(), 1);
            assert_eq!(arr[0], text("a:foo"));
        }
        other => panic!("expected Array, got {other:?}"),
    }
}

#[test]
fn insert_preserves_other_resource_attrs() {
    let mut event = OtelLog::new(LogRecord::default());
    event.set_resource(resource("service.name", "my-svc"));
    let before = event.get(&path(&["resource", "service.name"]));
    assert_eq!(before, Some(text("my-svc")));

    put(&mut event, &["attr"], text("val"));

    let after = event.get(&path(&["resource", "service.name"]));
    assert_eq!(after, before);
}

#[test]
fn insert_preserves_host_resource_attr() {
    let mut event = OtelLog::new(LogRecord::default());
    event.set_resource(resource("host.name", "srv01"));
    put(&mut event, &["attr"], text("val"));
    assert_eq!(event.get(&path(&["resource", "host.name"])), Some(text("srv01")));
}

#[test]
fn insert_preserves_severity_text_via_round_trip() {
    let mut event =
        OtelLog::new(LogRecord { severity_text: "ERROR".into(), ..Default::default() });
    put(&mut event, &["new_field"], text("new_value"));
    assert_eq!(event.severity_text(), "ERROR");
}

#[test]
fn insert_preserves_severity_number_via_round_trip() {
    let mut event = OtelLog::new(LogRecord { severity_number: 17, ..Default::default() });
    put(&mut event, &["new_field"], text("new_value"));
    assert_eq!(event.severity_number(), 17);
}

#[test]
fn insert_preserves_trace_id_via_round_trip() {
    let trace_id_bytes = vec![
        0x0a, 0x0b, 0x0c, 0x0d, 0x0e, 0x0f, 0x10, 0x11, 0x12, 0x13, 0x14, 0x15, 0x16, 0x17, 0x18,
        0x19,
    ];
    let mut event =
        OtelLog::new(LogRecord { trace_id: trace_id_bytes.clone(), ..Default::default() });
    put(&mut event, &["new_field"], text("new_value"));
    assert_eq!(event.trace_id(), trace_id_bytes.as_slice());
}

#[test]
fn insert_preserves_span_id_via_round_trip() {
    let span_id_bytes = vec![0x0a, 0x0b, 0x0c, 0x0d, 0x0e, 0x0f, 0x10, 0x11];
    let mut event =
        OtelLog::new(LogRecord { span_id: span_id_bytes.clone(), ..Default::default() });
    put(&mut event, &["new_field"], text("new_value"));
    assert_eq!(event.span_id(), span_id_bytes.as_slice());
}

#[test]
fn insert_preserves_corrupt_trace_id_as_attribute() {
    let mut event = OtelLog::new(LogRecord::default());
    put(&mut event, &["trace_id"], text("not-hex-data"));
    assert!(event.trace_id().is_empty(), "native field should stay empty for invalid hex");
    assert_eq!(event.get(&path(&["trace_id"])), Some(text("not-hex-data")));
}

#[test]
fn insert_preserves_scope_via_round_trip() {
    let mut event = OtelLog::new(LogRecord::default());
    event.set_scope(InstrumentationScope {
        name: "my-lib".into(),
        version: "1.2.3".into(),
        attributes: vec![attribute("lib.lang", "rust")],
        dropped_attributes_count: 0,
    });
    put(&mut event, &["new_field"], text("new_value"));
    assert_eq!(event.get(&path(&["scope", "name"])), Some(text("my-lib")));
    assert_eq!(event.get(&path(&["scope", "version"])), Some(text("1.2.3")));
    assert_eq!(event.get(&path(&["scope", "attributes", "lib.lang"])), Some(text("rust")));
}

#[test]
fn insert_preserves_observed_time_unix_nano_via_round_trip() {
    let mut event = OtelLog::new(LogRecord {
        observed_time_unix_nano: 1_700_000_000_000_000_000,
        ..Default::default()
    });
    put(&mut event, &["new_field"], text("new_value"));
    assert_eq!(event.record.observed_time_unix_nano, 1_700_000_000_000_000_000);
}

#[test]
fn multi_segment_resource_get_insert_remove() {
    let mut log = OtelLog::new(LogRecord::default());
    log.set_resource_attribute("service.name".to_string(), string_value("my-svc"));
    log.set_resource_attribute("source_type".to_string(), string_value("syslog"));

    assert_eq!(log.get(&path(&["resource", "service.name"])), Some(text("my-svc")));
    assert_eq!(log.get(&path(&["resource", "source_type"])), Some(text("syslog")));

    put(&mut log, &["resource", "deployment.environment"], text("prod"));
    assert_eq!(log.get(&path(&["resource", "deployment.environment"])), Some(text("prod")));

    let removed = log.remove(&path(&["resource", "service.name"]));
    assert_eq!(removed, Some(text("my-svc")));
    assert_eq!(log.get(&path(&["resource", "service.name"])), None);
}

#[test]
fn multi_segment_scope_get_insert_remove() {
    let mut log = OtelLog::new(LogRecord::default());
    log.scope = Some(InstrumentationScope {
        name: "my-lib".to_string(),
        version: "1.0".to_string(),
        attributes: vec![],
        dropped_attributes_count: 0,
    });

    assert_eq!(log.get(&path(&["scope", "name"])), Some(text("my-lib")));
    assert_eq!(log.get(&path(&["scope", "version"])), Some(text("1.0")));

    put(&mut log, &["scope", "name"], text("updated-lib"));
    assert_eq!(log.get(&path(&["scope", "name"])), Some(text("updated-lib")));

    put(&mut log, &["scope", "attributes", "env"], text("prod"));
    assert_eq!(log.get(&path(&["scope", "attributes", "env"])), Some(text("prod")));

    let removed = log.remove(&path(&["scope", "name"]));
    assert_eq!(removed, Some(text("updated-lib")));
    assert_eq!(log.get(&path(&["scope", "name"])), None);
}

#[test]
fn multi_segment_nested_attribute_get_insert_remove() {
    let mut log = OtelLog::new(LogRecord::default());

    put(&mut log, &["kubernetes", "pod_name"], text("sandbox0"));
    assert_eq!(log.get(&path(&["kubernetes", "pod_name"])), Some(text("sandbox0")));

    put(&mut log, &["kubernetes", "pod_labels", "app"], text("my-app"));
    assert_eq!(log.get(&path(&["kubernetes", "pod_labels", "app"])), Some(text("my-app")));

    let removed = log.remove(&path(&["kubernetes", "pod_name"]));
    assert_eq!(removed, Some(text("sandbox0")));
    assert_eq!(log.get(&path(&["kubernetes", "pod_name"])), None);
    assert_eq!(log.get(&path(&["kubernetes", "pod_labels", "app"])), Some(text("my-app")));
}

#[test]
fn multi_segment_prune_removes_empty_parents() {
    let mut log = OtelLog::new(LogRecord::default());
    put(&mut log, &["nested", "only_child"], text("val"));
    assert_eq!(log.get(&path(&["nested", "only_child"])), Some(text("val")));

    let removed = log.remove_prune(&path(&["nested", "only_child"]), true);
    assert_eq!(removed, Some(text("val")));
    assert_eq!(log.get(&path(&["nested"])), None);
}

#[test]
fn event_iteration() {
    let mut log = OtelLog::default();
    put(&mut log, &["Kesha"], text("It's going down, I'm yelling timber"));
    put(&mut log, &["Pitbull"], text("The bigger they are, the harder they fall"));

    let all = log.as_map().unwrap();
    assert_eq!(
        all.entries,
        vec![
            ("Kesha".to_string(), text("It's going down, I'm yelling timber")),
            ("Pitbull".to_string(), text("The bigger they are, the harder they fall")),
        ]
    );
}

#[test]
fn event_iteration_order() {
    let mut log = OtelLog::default();
    put(&mut log, &["lZDfzKIL"], text("tOVrjveM"));
    put(&mut log, &["o9amkaRY"], text("pGsfG7Nr"));
    put(&mut log, &["YRjhxXcg"], text("nw8iM5Jr"));

    let collected = log.as_map().unwrap().entries;
    assert_eq!(
        collected,
        vec![
            ("YRjhxXcg".into(), text("nw8iM5Jr")),
            ("lZDfzKIL".into(), text("tOVrjveM")),
            ("o9amkaRY".into(), text("pGsfG7Nr")),
        ]
    );
}

#[test]
fn serialization() {
    let mut event = OtelLog::from("raw log line");
    put(&mut event, &["foo"], text("bar"));
    put(&mut event, &["bar"], text("baz"));

    let actual_all = event.as_map().unwrap();
    assert_eq!(actual_all.get("body"), Some(&text("raw log line")));
    assert_eq!(actual_all.get("foo"), Some(&text("bar")));
    assert_eq!(actual_all.get("bar"), Some(&text("baz")));
    assert_eq!(actual_all.get("timestamp"), None);
}

#[test]
fn type_serialization() {
    let mut event = OtelLog::from("hello world");
    put(&mut event, &["int"], Value::Integer(4));
    put(&mut event, &["float"], Value::Float(5.5f64.to_bits()));
    put(&mut event, &["bool"], Value::Boolean(true));
    put(&mut event, &["string"], text("thisisastring"));

    let map = event.as_map().unwrap();
    assert_eq!(map.get("float"), Some(&Value::Float(5.5f64.to_bits())));
    assert_eq!(map.get("int"), Some(&Value::Integer(4)));
    assert_eq!(map.get("bool"), Some(&Value::Boolean(true)));
    assert_eq!(map.get("string"), Some(&text("thisisastring")));
}

#[test]
fn instants_are_kept_as_nanoseconds() {
    let mut log = OtelLog::default();
    let ts = instant("2024-06-15T12:00:00.5Z");
    put(&mut log, &["time_unix_nano"], Value::Timestamp(ts));
    assert_eq!(log.time_unix_nano(), 1_718_452_800_500_000_000);
    assert_eq!(log.get_timestamp(), Some(Value::Timestamp(ts)));
}

#[test]
fn parsed_paths_reach_fields() {
    let mut log = OtelLog::from("line");
    assert!(log.parse_path_and_insert(".a.\"b c\"", Value::Integer(7), "7").is_ok());
    assert_eq!(log.get(&path(&["a", "b c"])), Some(Value::Integer(7)));
    assert_eq!(log.parse_path_and_get_value(".a.\"b c\"").unwrap(), Some(Value::Integer(7)));
    assert!(matches!(log.parse_path_and_get_value("a..b"), Err(PathParseError::InvalidPathSyntax { .. })));
}

#[test]
fn a_log_can_be_rebuilt_from_its_map() {
    let mut log = OtelLog::new(LogRecord {
        body: Some(string_value("hello")),
        severity_number: 9,
        time_unix_nano: 1234567890,
        trace_id: vec![0xab; 16],
        attributes: vec![attribute("env", "prod")],
        ..Default::default()
    });
    log.set_resource(resource("service.name", "my-svc"));
    let mut back = OtelLog::default();
    back.apply_value_map(log.to_value_canonical());
    assert!(back.event_data_eq(&log));
    let again = OtelLog::from_value_map(log.to_value_canonical(), EventMetadata::default());
    assert!(again.event_data_eq(&log));
}

#[test]
fn bodies_are_joined_when_logs_are_merged() {
    let mut log = OtelLog::from("hello ");
    let incoming = OtelLog::from("world");
    log.merge_body(&incoming, EventMetadata::default());
    assert_eq!(log.body_string(""), "hello world");
}

#[test]
fn fields_are_joined_when_logs_are_merged() {
    let mut log = OtelLog::default();
    put(&mut log, &["message"], text("a"));
    put(&mut log, &["other"], text("kept"));
    let mut incoming = OtelLog::default();
    put(&mut incoming, &["message"], text("b"));
    put(&mut incoming, &["other"], text("dropped"));
    log.merge(incoming, &["message"], EventMetadata::default());
    assert_eq!(log.get(&path(&["message"])), Some(text("ab")));
    assert_eq!(log.get(&path(&["other"])), Some(text("kept")));
}

#[test]
fn keys_can_be_renamed() {
    let mut log = OtelLog::default();
    put(&mut log, &["from"], Value::Integer(1));
    log.rename_key(&path(&["from"]), &path(&["to"]), "1");
    assert_eq!(log.get(&path(&["from"])), None);
    assert_eq!(log.get(&path(&["to"])), Some(Value::Integer(1)));
}

#[test]
fn a_log_keeps_its_order() {
    let mut log = OtelLog::default();
    put(&mut log, &["b"], Value::Integer(2));
    put(&mut log, &["a"], Value::Integer(1));
    assert_eq!(log.keys(), Some(vec!["a".to_string(), "b".to_string()]));
    log.remove(&path(&["a"]));
    put(&mut log, &["c"], Value::Integer(3));
    assert_eq!(log.keys(), Some(vec!["b".to_string(), "c".to_string()]));
}

#[test]
fn json_becomes_a_log() {
    let json = Json::Object(vec![
        ("flag".to_string(), Json::Bool(true)),
        ("nested".to_string(), Json::Object(vec![("x".to_string(), Json::Null)])),
        (
            "number".to_string(),
            Json::Number(JsonNumber { integer: Some(3), double: Some(3.0f64.to_bits()) }),
        ),
    ]);
    let log = OtelLog::from_json_value(&json);
    assert_eq!(log.get(&path(&["flag"])), Some(Value::Boolean(true)));
    assert_eq!(log.get(&path(&["number"])), Some(Value::Integer(3)));
}

#[test]
fn bytes_that_are_no_text_are_repaired() {
    let mut log = OtelLog::default();
    put(&mut log, &["severity_text"], Value::Bytes(vec![b'a', 0xff]));
    assert_eq!(log.severity_text(), "a\u{fffd}");
}

fn object(pairs: Vec<(&str, Value)>) -> Value {
    let mut map = KeyedMap::new();
    for (key, value) in pairs {
        map.insert(key.to_string(), value);
    }
    Value::Object(map)
}

#[test]
fn attributes_that_are_no_list_are_kept() {
    let mut log = OtelLog::new(LogRecord::default());
    log.apply_value_map(object(vec![("attributes", object(vec![("k", text("v"))]))]));
    assert_eq!(log.get(&path(&["attributes", "k"])), Some(text("v")));
    assert!(log.attribute("attributes").is_some());

    log.apply_value_map(object(vec![("attributes", Value::Integer(3))]));
    assert_eq!(log.attribute("attributes"), Some(&int_value(3)));

    log.apply_value_map(object(vec![(
        "resource",
        object(vec![("attributes", text("x")), ("region", text("eu"))]),
    )]));
    assert_eq!(log.get(&path(&["resource", "attributes"])), Some(text("x")));
    assert_eq!(log.get(&path(&["resource", "region"])), Some(text("eu")));
}

#[test]
fn a_list_of_named_attributes_is_read() {
    let item = object(vec![("key", text("k")), ("value", object(vec![("stringValue", text("v"))]))]);
    let log = OtelLog::from_value_map(
        object(vec![("attributes", Value::Array(vec![item])), ("other", Value::Integer(1))]),
        EventMetadata::default(),
    );
    assert_eq!(log.attribute("k"), Some(&string_value("v")));
    assert_eq!(log.attribute("other"), Some(&int_value(1)));
    assert_eq!(log.attribute("attributes"), None);
}

#[test]
fn source_and_host_go_to_the_resource() {
    let log = OtelLog::from_value_map(
        object(vec![("source_type", text("syslog")), ("host", text("box")), ("x", text("y"))]),
        EventMetadata::default(),
    );
    assert_eq!(log.get_source_type(), Some(text("syslog")));
    assert_eq!(log.get_host(), Some(text("box")));
    assert_eq!(log.attribute("source_type"), None);
    assert_eq!(log.attribute("host"), None);
    assert_eq!(log.attribute("x"), Some(&string_value("y")));
}

#[test]
fn a_named_resource_keeps_its_own_source() {
    let log = OtelLog::from_value_map(
        object(vec![
            ("resource", object(vec![("source_type", text("file"))])),
            ("source_type", text("syslog")),
        ]),
        EventMetadata::default(),
    );
    assert_eq!(log.get_source_type(), Some(text("file")));
    assert_eq!(log.attribute("source_type"), Some(&string_value("syslog")));
    let again = OtelLog::from_value_map(log.to_value_canonical(), EventMetadata::default());
    assert!(again.event_data_eq(&log));
}

#[test]
fn an_instant_becomes_the_time() {
    let ts = instant("2024-06-15T12:00:00Z");
    let log = OtelLog::from_value_map(
        object(vec![("timestamp", Value::Timestamp(ts))]),
        EventMetadata::default(),
    );
    assert_eq!(log.time_unix_nano(), 1_718_452_800_000_000_000);
    assert_eq!(log.attribute("timestamp"), None);

    let ts = instant("2024-06-15T12:00:00Z");
    let log = OtelLog::from_value_map(
        object(vec![("time_unix_nano", Value::Integer(7)), ("timestamp", Value::Timestamp(ts))]),
        EventMetadata::default(),
    );
    assert_eq!(log.time_unix_nano(), 7);
    assert!(log.attribute("timestamp").is_some());

    let log = OtelLog::from_value_map(
        object(vec![("timestamp", text("noon"))]),
        EventMetadata::default(),
    );
    assert_eq!(log.time_unix_nano(), 0);
    assert_eq!(log.attribute("timestamp"), Some(&string_value("noon")));
}

#[test]
fn a_message_is_the_body_where_there_is_none() {
    let log = OtelLog::from_value_map(
        object(vec![("message", text("hello"))]),
        EventMetadata::default(),
    );
    assert_eq!(log.body(), Some(&string_value("hello")));
    assert_eq!(log.attribute("message"), None);

    let log = OtelLog::from_value_map(
        object(vec![("body", text("hello")), ("message", text("other"))]),
        EventMetadata::default(),
    );
    assert_eq!(log.body(), Some(&string_value("hello")));
    assert_eq!(log.attribute("message"), Some(&string_value("other")));
}

#[test]
fn native_fields_come_back_whatever_else_there_is() {
    let mut log = OtelLog::new(LogRecord {
        severity_text: "WARN".to_string(),
        severity_number: 13,
        time_unix_nano: u64::MAX,
        observed_time_unix_nano: 1 << 63,
        trace_id: vec![1; 16],
        span_id: vec![2; 8],
        flags: 1,
        dropped_attributes_count: 4,
        attributes: vec![attribute("message", "m"), attribute("host", "h")],
        ..Default::default()
    });
    log.set_attribute("empty".to_string(), AnyValue { value: None });
    let back = OtelLog::from_value_map(log.to_value_canonical(), EventMetadata::default());
    assert_eq!(back.severity_text(), "WARN");
    assert_eq!(back.severity_number(), 13);
    assert_eq!(back.time_unix_nano(), u64::MAX);
    assert_eq!(back.record.observed_time_unix_nano, 1 << 63);
    assert_eq!(back.trace_id(), [1u8; 16].as_slice());
    assert_eq!(back.span_id(), [2u8; 8].as_slice());
    assert_eq!(back.record.flags, 1);
    assert_eq!(back.record.dropped_attributes_count, 4);
    assert_eq!(back.get_host(), Some(text("h")));
}

#[test]
fn emptied_parents_are_pruned() {
    for parent in [vec!["resource", "k8s"], vec!["scope", "attributes", "k8s"], vec!["k8s"]] {
        for prune in [true, false] {
            let mut log = OtelLog::new(LogRecord::default());
            let mut child = parent.clone();
            child.push("pod");
            put(&mut log, &child, text("p"));
            assert_eq!(log.remove_prune(&path(&child), prune), Some(text("p")));
            let left = if prune { None } else { Some(Value::new_object()) };
            assert_eq!(log.get(&path(&parent)), left);
        }
    }
    let mut log = OtelLog::new(LogRecord::default());
    put(&mut log, &["resource", "a", "b", "c"], Value::Integer(1));
    put(&mut log, &["resource", "a", "d"], Value::Integer(2));
    assert_eq!(log.remove_prune(&path(&["resource", "a", "b", "c"]), true), Some(Value::Integer(1)));
    assert_eq!(log.get(&path(&["resource", "a", "b"])), None);
    assert_eq!(log.get(&path(&["resource", "a", "d"])), Some(Value::Integer(2)));
}
