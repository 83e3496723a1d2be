use std::collections::BTreeMap;

use vector_core::any_value::{
    any_value_to_vrl, string_value, vrl_value_to_any_value, AnyValue, KeyValue, OtelValueKind,
};
use vector_core::event::Event;
use vector_core::hex::{hex_decode_value, hex_encode};
use vector_core::keyed::KeyedMap;
use vector_core::log::OtelLog;
use vector_core::metric::OtelMetric;
use vector_core::metric_kind::MetricKind;
use vector_core::otlp::{InstrumentationScope, LogRecord, Resource};
use vector_core::otlp_metric::Metric;
use vector_core::otlp_span::Span;
use vector_core::path::{OwnedSegment, OwnedTargetPath, OwnedValuePath, PathPrefix};
use vector_core::schema::{merge_array_definitions, Definition};
use vector_core::span::OtelSpan;
use vector_core::target::{MetricPathError, TargetEvents, VrlTarget};
use vector_core::value::Value;
use vrl::value::kind::{Collection, Field, Index};
use vrl::value::Kind;

fn at(segments: Vec<OwnedSegment>) -> OwnedTargetPath {
    OwnedTargetPath { prefix: PathPrefix::Event, path: OwnedValuePath { segments } }
}

fn name(name: &str) -> OwnedSegment {
    OwnedSegment::Field(name.to_string())
}

fn index(i: isize) -> OwnedSegment {
    OwnedSegment::Index(i)
}

fn path(fields: &[&str]) -> OwnedTargetPath {
    at(fields.iter().map(|f| name(f)).collect())
}

fn text(s: &str) -> Value {
    Value::from_text(s)
}

fn object(pairs: Vec<(&str, Value)>) -> Value {
    let mut map = KeyedMap::new();
    for (key, value) in pairs {
        map.insert(key.to_string(), value);
    }
    Value::Object(map)
}

fn one(target: VrlTarget) -> Event {
    match target.into_events() {
        TargetEvents::One(event) => event,
        _ => panic!("expected one event"),
    }
}

fn log(record: LogRecord) -> VrlTarget {
    VrlTarget::new(Event::Log(OtelLog::new(record)), false)
}

#[test]
fn test_merged_array_definitions_simple() {
    let object: BTreeMap<Field, Kind> =
        [("carrot".into(), Kind::bytes()), ("potato".into(), Kind::integer())].into();

    let kind = Kind::array(Collection::from_unknown(Kind::object(object)));

    let definition = Definition::new_with_default_metadata(kind);

    let kind = Kind::object(BTreeMap::from([
        ("carrot".into(), Kind::bytes()),
        ("potato".into(), Kind::integer()),
    ]));

    let wanted = Definition::new_with_default_metadata(kind);
    let merged = merge_array_definitions(definition);

    assert_eq!(wanted, merged);
}

#[test]
fn test_merged_array_definitions_complex() {
    let object: BTreeMap<Field, Kind> =
        [("carrot".into(), Kind::bytes()), ("potato".into(), Kind::integer())].into();

    let array: BTreeMap<Index, Kind> = [
        (Index::from(0), Kind::integer()),
        (Index::from(1), Kind::boolean()),
        (Index::from(2), Kind::object(BTreeMap::from([("peas".into(), Kind::bytes())]))),
    ]
    .into();

    let mut kind = Kind::bytes();
    kind.add_object(object);
    kind.add_array(array);

    let definition = Definition::new_with_default_metadata(kind);

    let mut kind = Kind::bytes();
    kind.add_integer();
    kind.add_boolean();
    kind.add_object(BTreeMap::from([
        ("carrot".into(), Kind::bytes().or_undefined()),
        ("potato".into(), Kind::integer().or_undefined()),
        ("peas".into(), Kind::bytes().or_undefined()),
    ]));

    let wanted = Definition::new_with_default_metadata(kind);
    let merged = merge_array_definitions(definition);

    assert_eq!(wanted, merged);
}

#[test]
fn log_insert() {
    let cases = vec![
        (
            object(vec![("foo", text("bar"))]),
            vec![index(0)],
            object(vec![("baz", text("qux"))]),
            object(vec![("baz", text("qux"))]),
        ),
        (
            object(vec![("foo", text("bar"))]),
            vec![name("foo")],
            text("baz"),
            object(vec![("foo", text("baz"))]),
        ),
        (
            object(vec![("foo", text("bar"))]),
            vec![name("foo"), index(2), name("bar baz"), name("a"), name("b")],
            Value::Boolean(true),
            object(vec![(
                "foo",
                Value::Array(vec![
                    Value::Null,
                    Value::Null,
                    object(vec![(
                        "bar baz",
                        object(vec![("a", object(vec![("b", Value::Boolean(true))]))]),
                    )]),
                ]),
            )]),
        ),
        (
            object(vec![(
                "foo",
                Value::Array(vec![Value::Integer(0), Value::Integer(1), Value::Integer(2)]),
            )]),
            vec![name("foo"), index(5)],
            text("baz"),
            object(vec![(
                "foo",
                Value::Array(vec![
                    Value::Integer(0),
                    Value::Integer(1),
                    Value::Integer(2),
                    Value::Null,
                    Value::Null,
                    text("baz"),
                ]),
            )]),
        ),
        (
            object(vec![("foo", text("bar"))]),
            vec![name("foo"), index(0)],
            text("baz"),
            object(vec![("foo", Value::Array(vec![text("baz")]))]),
        ),
        (
            object(vec![("foo", Value::Array(vec![]))]),
            vec![name("foo"), index(0)],
            text("baz"),
            object(vec![("foo", Value::Array(vec![text("baz")]))]),
        ),
        (
            object(vec![("foo", Value::Array(vec![Value::Integer(0)]))]),
            vec![name("foo"), index(0)],
            text("baz"),
            object(vec![("foo", Value::Array(vec![text("baz")]))]),
        ),
        (
            object(vec![("foo", Value::Array(vec![Value::Integer(0), Value::Integer(1)]))]),
            vec![name("foo"), index(0)],
            text("baz"),
            object(vec![("foo", Value::Array(vec![text("baz"), Value::Integer(1)]))]),
        ),
        (
            object(vec![("foo", Value::Array(vec![Value::Integer(0), Value::Integer(1)]))]),
            vec![name("foo"), index(1)],
            text("baz"),
            object(vec![("foo", Value::Array(vec![Value::Integer(0), text("baz")]))]),
        ),
    ];

    for (object, path, value, expect) in cases {
        let mut target = VrlTarget::new(Event::Log(OtelLog::from(object)), false);
        let expect = OtelLog::from(expect);
        let path = at(path);

        assert!(target.target_insert(&path, value.clone()).is_ok());
        assert_eq!(target.target_get(&path).unwrap(), Some(&value));
        let events = match target.into_events() {
            TargetEvents::One(event) => vec![event],
            TargetEvents::OtelLogs(events) => events,
            TargetEvents::OtelSpans(events) => events,
        };
        assert_eq!(events[0], Event::Log(expect));
    }
}

#[test]
fn otel_log_vrl_target_get_severity_text() {
    let target = log(LogRecord { severity_text: "ERROR".to_string(), ..Default::default() });

    let result = target.target_get(&path(&["severity_text"])).unwrap();
    assert_eq!(result, Some(&text("ERROR")));
}

#[test]
fn otel_log_vrl_target_get_attribute() {
    let target = log(LogRecord {
        attributes: vec![KeyValue {
            key: "host.name".to_string(),
            value: Some(string_value("myhost")),
        }],
        ..Default::default()
    });

    let result = target.target_get(&path(&["attributes", "host.name"])).unwrap();
    assert_eq!(result, Some(&text("myhost")));
}

#[test]
fn otel_log_vrl_target_insert_attribute() {
    let mut target = log(LogRecord::default());

    let path = path(&["attributes", "host.name"]);
    target.target_insert(&path, text("myhost")).unwrap();

    let result = target.target_get(&path).unwrap();
    assert_eq!(result, Some(&text("myhost")));
}

#[test]
fn otel_log_vrl_target_roundtrip_into_events() {
    let target = log(LogRecord {
        severity_text: "INFO".to_string(),
        severity_number: 9,
        time_unix_nano: 1234567890,
        attributes: vec![KeyValue {
            key: "service".to_string(),
            value: Some(string_value("web")),
        }],
        ..Default::default()
    });

    let event = one(target);
    let restored = event.as_log();
    assert_eq!(restored.severity_text(), "INFO");
    assert_eq!(restored.severity_number(), 9);
    assert_eq!(restored.time_unix_nano(), 1234567890);
    assert_eq!(restored.attributes().len(), 1);
    assert!(restored.attributes().get("service").is_some());
}

#[test]
fn otel_log_vrl_target_mutate_and_roundtrip() {
    let mut target = log(LogRecord { severity_text: "DEBUG".to_string(), ..Default::default() });

    target.target_insert(&path(&["severity_text"]), text("WARN")).unwrap();

    let event = one(target);
    assert_eq!(event.as_log().severity_text(), "WARN");
}

#[test]
fn otel_span_vrl_target_get_name() {
    let event = OtelSpan::new(Span {
        name: "my-span".to_string(),
        trace_id: vec![1, 2, 3, 4, 5, 6, 7, 8, 9, 10, 11, 12, 13, 14, 15, 16],
        ..Default::default()
    });
    let target = VrlTarget::new(Event::Trace(event), false);

    let result = target.target_get(&path(&["name"])).unwrap();
    assert_eq!(result, Some(&text("my-span")));

    let result = target.target_get(&path(&["trace_id"])).unwrap();
    assert_eq!(result, Some(&text("0102030405060708090a0b0c0d0e0f10")));
}

#[test]
fn otel_span_vrl_target_roundtrip() {
    let event = OtelSpan::new(Span {
        name: "test-span".to_string(),
        kind: 2,
        start_time_unix_nano: 1000,
        end_time_unix_nano: 2000,
        ..Default::default()
    });
    let target = VrlTarget::new(Event::Trace(event), false);

    let event = one(target);
    let restored = event.as_trace();
    assert_eq!(restored.name(), "test-span");
    assert_eq!(restored.kind(), 2);
    assert_eq!(restored.start_time_unix_nano(), 1000);
    assert_eq!(restored.end_time_unix_nano(), 2000);
}

#[test]
fn otel_metric_vrl_target_get_name() {
    let event = OtelMetric::new(Metric {
        name: "http.duration".to_string(),
        description: "request duration".to_string(),
        unit: "ms".to_string(),
        ..Default::default()
    });
    let target = VrlTarget::new(Event::Metric(event), false);

    let result = target.target_get(&path(&["name"])).unwrap();
    assert_eq!(result, Some(&text("http.duration")));

    let result = target.target_get(&path(&["unit"])).unwrap();
    assert_eq!(result, Some(&text("ms")));
}

#[test]
fn otel_metric_vrl_target_set_name() {
    let event = OtelMetric::new(Metric { name: "old.name".to_string(), ..Default::default() });
    let mut target = VrlTarget::new(Event::Metric(event), false);

    target.target_insert(&path(&["name"]), text("new.name")).unwrap();

    let event = one(target);
    assert_eq!(event.as_metric().name(), "new.name");
}

#[test]
fn otel_log_resource_and_scope_roundtrip() {
    let mut event = OtelLog::new(LogRecord::default());
    event.set_resource(Resource {
        attributes: vec![KeyValue {
            key: "service.name".to_string(),
            value: Some(string_value("my-svc")),
        }],
        dropped_attributes_count: 0,
    });
    event.set_scope(InstrumentationScope {
        name: "my-lib".to_string(),
        version: "1.0".to_string(),
        ..Default::default()
    });

    let target = VrlTarget::new(Event::Log(event), false);

    let result = target.target_get(&path(&["resource", "attributes", "service.name"])).unwrap();
    assert_eq!(result, Some(&text("my-svc")));

    let result = target.target_get(&path(&["scope", "name"])).unwrap();
    assert_eq!(result, Some(&text("my-lib")));

    let event = one(target);
    let restored = event.as_log();
    assert!(restored.resource().is_some());
    assert_eq!(
        restored.resource_attribute("service.name").and_then(|v| {
            match &v.value {
                Some(OtelValueKind::StringValue(s)) => Some(s.as_str()),
                _ => None,
            }
        }),
        Some("my-svc")
    );
    assert_eq!(restored.scope().unwrap().name, "my-lib");
    assert_eq!(restored.scope().unwrap().version, "1.0");
}

#[test]
fn otel_any_value_conversion_roundtrip() {
    let cases = vec![
        AnyValue { value: Some(OtelValueKind::StringValue("hello".to_string())) },
        AnyValue { value: Some(OtelValueKind::BoolValue(true)) },
        AnyValue { value: Some(OtelValueKind::IntValue(42)) },
        AnyValue { value: Some(OtelValueKind::DoubleValue(3.14f64.to_bits())) },
        AnyValue { value: Some(OtelValueKind::BytesValue(vec![1, 2, 3])) },
        AnyValue { value: None },
    ];

    for original in &cases {
        let vrl_val = any_value_to_vrl(original);
        let restored = vrl_value_to_any_value(&vrl_val);
        match (&original.value, &restored.value) {
            (Some(OtelValueKind::BytesValue(a)), Some(OtelValueKind::StringValue(b))) => {
                assert_eq!(String::from_utf8_lossy(a).as_ref(), b.as_str());
            }
            (None, None) => {}
            _ => assert_eq!(original, &restored, "roundtrip failed for {original:?}"),
        }
    }
}

#[test]
fn hex_encode_decode_roundtrip() {
    let original = vec![0x01, 0x23, 0xab, 0xcd, 0xef, 0x00, 0xff];
    let encoded = hex_encode(&original);
    assert_eq!(encoded, text("0123abcdef00ff"));
    let decoded = hex_decode_value(&encoded);
    assert_eq!(decoded, original);
}

#[test]
fn an_array_makes_several_logs() {
    let mut target = log(LogRecord::default());
    let root = at(vec![]);
    let items = Value::Array(vec![
        object(vec![("severity_text", text("INFO"))]),
        object(vec![("severity_text", text("WARN"))]),
    ]);
    target.target_insert(&root, items).unwrap();
    match target.into_events() {
        TargetEvents::OtelLogs(events) => {
            assert_eq!(events.len(), 2);
            assert_eq!(events[0].as_log().severity_text(), "INFO");
            assert_eq!(events[1].as_log().severity_text(), "WARN");
        }
        other => panic!("expected logs, got {other:?}"),
    }
}

fn metric_target() -> VrlTarget {
    VrlTarget::new(
        Event::Metric(OtelMetric::new_counter(
            "c".to_string(),
            MetricKind::Incremental,
            1.0f64.to_bits(),
        )),
        false,
    )
}

#[test]
fn metrics_refuse_other_paths() {
    let mut target = metric_target();
    assert!(matches!(
        target.target_insert(&at(vec![]), text("x")),
        Err(MetricPathError::SetPathError)
    ));
    match target.target_insert(&path(&["zork"]), text("x")) {
        Err(MetricPathError::InvalidPath { path, .. }) => assert_eq!(path, "zork"),
        _ => panic!("expected an invalid path"),
    }
    assert!(matches!(
        target.target_insert(&path(&["name"]), Value::Integer(1)),
        Err(MetricPathError::ExpectedBytes { got: Value::Integer(1) })
    ));
    assert_eq!(target.target_get(&path(&["name"])).unwrap(), Some(&text("c")));
}

#[test]
fn metrics_take_a_kind_and_a_namespace() {
    let mut target = metric_target();
    target.target_insert(&path(&["kind"]), text("absolute")).unwrap();
    target.target_insert(&path(&["namespace"]), text("ns")).unwrap();
    let event = one(target);
    assert_eq!(event.as_metric().kind(), MetricKind::Absolute);
    assert_eq!(event.as_metric().namespace(), Some("ns"));
}

#[test]
fn removed_fields_are_gone() {
    let mut target = log(LogRecord { severity_text: "INFO".to_string(), ..Default::default() });
    let removed = target.target_remove(&path(&["severity_text"]), false).unwrap();
    assert_eq!(removed, Some(text("INFO")));
    assert_eq!(target.target_get(&path(&["severity_text"])).unwrap(), None);
}

#[test]
fn values_can_be_changed_in_place() {
    let mut target = log(LogRecord { severity_text: "INFO".to_string(), ..Default::default() });
    let path = path(&["severity_text"]);
    *target.target_get_mut(&path).unwrap().unwrap() = text("WARN");
    assert_eq!(one(target).as_log().severity_text(), "WARN");
}

#[test]
fn secrets_are_kept() {
    let mut target = log(LogRecord::default());
    assert_eq!(target.get_secret("key"), None);
    target.insert_secret("key", "value");
    assert_eq!(target.get_secret("key"), Some("value"));
    target.remove_secret("key");
    assert_eq!(target.get_secret("key"), None);
}

#[test]
fn ids_of_odd_length_are_not_decoded() {
    assert_eq!(hex_decode_value(&text("abc")), b"abc".to_vec());
    assert_eq!(hex_decode_value(&text("xy")), b"xy".to_vec());
    assert_eq!(hex_decode_value(&Value::Integer(1)), Vec::<u8>::new());
}

#[test]
fn bytes_that_are_no_text_stay_bytes() {
    let restored = vrl_value_to_any_value(&Value::Bytes(vec![b'a', 0xff]));
    assert_eq!(restored.value, Some(OtelValueKind::BytesValue(vec![b'a', 0xff])));
}

#[test]
fn refused_paths_are_written_out() {
    let mut target = metric_target();
    let steps = vec![name("a b"), index(-2), name(""), name("q\"\\"), name("plain_1@")];
    match target.target_insert(&at(steps), text("x")) {
        Err(MetricPathError::InvalidPath { path, .. }) => {
            assert_eq!(path, "\"a b\"[-2].\"\".\"q\\\"\\\\\".plain_1@")
        }
        other => panic!("{other:?}"),
    }
}

#[test]
fn attributes_are_set_through_data_points() {
    let mut target = metric_target();
    let steps = |last: Vec<OwnedSegment>| {
        let mut all = vec![name("data"), name("sum"), name("data_points")];
        all.extend(last);
        at(all)
    };
    let path = steps(vec![index(0), name("attributes"), name("env")]);
    target.target_insert(&path, text("prod")).unwrap();
    match &target {
        VrlTarget::OtelMetric { value, .. } => {
            assert_eq!(value.get(&path.path), Some(&text("prod")));
        }
        other => panic!("{other:?}"),
    }
    for refused in [
        steps(vec![index(0), name("attributes")]),
        steps(vec![name("0"), name("attributes"), name("env")]),
        steps(vec![index(0), name("value")]),
        steps(vec![index(0), name("attributes"), name("env"), name("x")]),
    ] {
        match target.target_insert(&refused, text("x")) {
            Err(MetricPathError::InvalidPath { expected, .. }) => {
                assert!(expected.contains(".data.*.data_points[*].attributes"))
            }
            other => panic!("{other:?}"),
        }
    }
    let event = one(target);
    assert_eq!(event.as_metric().dp_attrs[0].get("env"), Some(&string_value("prod")));
}
