use vector_core::array::{EventArray, EventContainer};
use vector_core::double::{double_from_i64, double_from_u64, is_less};
use vector_core::event::Event;
use vector_core::keyed::KeyedMap;
use vector_core::log::OtelLog;
use vector_core::metadata::EventMetadata;
use vector_core::metric::OtelMetric;
use vector_core::metric_data::{MetricData, MetricName, MetricSeries, MetricTime, MetricValue};
use vector_core::metric_kind::{MetricKind, Sample};
use vector_core::metric_tags::{MetricTags, TagValue};
use vector_core::otlp_span::Span;
use vector_core::path::OwnedTargetPath;
use vector_core::span::OtelSpan;
use vector_core::time::{to_i64, to_u64, Timestamp};
use vector_core::value::Value;
use vector_core::wire::{decode_value, encode_value, WireValue};
use vector_core::wire_array::{
    decode_array, decode_event, encode_array, encode_event, WireEventArray,
};
use vector_core::wire_event::{
    decode_log, decode_metadata, decode_metric, decode_trace, encode_log, encode_metadata,
    encode_metric, encode_trace,
};

fn text(s: &str) -> Value {
    Value::from_text(s)
}

fn field(name: &str) -> OwnedTargetPath {
    OwnedTargetPath::event_field(name)
}

fn shown(bits: u64) -> String {
    f64::from_bits(bits).to_string()
}

fn power(scale: i32, exponent: i32) -> u64 {
    2f64.powf(2f64.powi(-scale)).powi(exponent).to_bits()
}

#[test]
fn otel_log_proto_round_trip() {
    let mut otel = OtelLog::from("hello world");
    otel.insert(&field("key"), text("value"), "");
    otel.insert(&field("num"), Value::Integer(42), "");

    let encoded = encode_log(&otel.to_value_canonical(), EventMetadata::default());
    let round_tripped = decode_log(encoded);

    assert_eq!(round_tripped.get(&field("key")), Some(text("value")));
    assert_eq!(round_tripped.get(&field("num")), Some(Value::Integer(42)));
    assert_eq!(round_tripped.body_string(""), "hello world");
}

#[test]
fn otel_metric_proto_matches_legacy_metric_proto() {
    let series = || {
        let mut tags = MetricTags::default();
        tags.insert("env".to_string(), TagValue::Value("prod".to_string()));
        MetricSeries {
            name: MetricName {
                name: "test_counter".to_string(),
                namespace: Some("ns".to_string()),
            },
            tags: Some(tags),
        }
    };
    let data = || MetricData {
        time: MetricTime { timestamp: None, interval_ms: None },
        kind: MetricKind::Incremental,
        value: MetricValue::Counter { value: 42.0f64.to_bits() },
    };

    let via_legacy = encode_metric(series(), data(), EventMetadata::default());

    let otel = OtelMetric::from_metric_parts(
        series(),
        data(),
        EventMetadata::default(),
        |_: &Vec<Sample>| 0,
    );
    let (series, data, metadata) = otel.into_metric_parts(shown, power);
    let via_otel = encode_metric(series, data, metadata);

    assert_eq!(via_legacy, via_otel);
}

#[test]
fn otel_span_proto_encodes_fields_correctly() {
    let mut otel_log = OtelLog::from("span data");
    otel_log.insert(&field("trace_id"), text("abc123"), "");

    let otel_span = OtelSpan::from_otel_log(otel_log);
    let encoded = encode_trace(&otel_span.as_map().unwrap(), EventMetadata::default());

    assert!(!encoded.fields.is_empty(), "trace fields must not be empty");

    let count = encoded.fields.len();
    let decoded = decode_trace(encoded);
    assert_eq!(decoded.as_map().unwrap().len(), count);
    assert_eq!(decoded.trace_id(), &[0xab, 0xc1, 0x23]);
}

#[test]
fn values_come_back() {
    let mut map = KeyedMap::new();
    map.insert("a".to_string(), Value::Array(vec![Value::Null, Value::Boolean(true)]));
    map.insert("b".to_string(), Value::Float(1.5f64.to_bits()));
    map.insert(
        "c".to_string(),
        Value::Timestamp(Timestamp::parse_rfc3339("2024-06-15T12:00:00Z").unwrap()),
    );
    let value = Value::Object(map);
    assert_eq!(decode_value(&encode_value(&value)), Some(value));
}

#[test]
fn metadata_comes_back() {
    let mut metadata = EventMetadata::default();
    metadata.source_id = Some("in".to_string());
    metadata.secrets.insert("key".to_string(), "value".to_string());
    let back = decode_metadata(encode_metadata(metadata));
    assert_eq!(back.source_id, Some("in".to_string()));
    assert_eq!(back.secrets.get("key"), Some(&"value".to_string()));
}

#[test]
fn metrics_come_back() {
    let series = MetricSeries {
        name: MetricName { name: "m".to_string(), namespace: None },
        tags: None,
    };
    let data = MetricData {
        time: MetricTime {
            timestamp: Timestamp::from_timestamp(10, 5),
            interval_ms: Some(1000),
        },
        kind: MetricKind::Absolute,
        value: MetricValue::Gauge { value: 2.0f64.to_bits() },
    };
    let (series, data, _) = decode_metric(encode_metric(series, data, EventMetadata::default()));
    assert_eq!(series.name.name, "m");
    assert_eq!(data.time.timestamp, Timestamp::from_timestamp(10, 5));
    assert_eq!(data.time.interval_ms, Some(1000));
    assert_eq!(data.kind, MetricKind::Absolute);
    assert_eq!(data.value, MetricValue::Gauge { value: 2.0f64.to_bits() });
}

#[test]
fn doubles_are_rounded_as_usual() {
    for n in [0u64, 1, 3, 9007199254740993, u64::MAX, 1 << 63, 12345678901234567890] {
        assert_eq!(double_from_u64(n), (n as f64).to_bits());
    }
    for i in [0i64, -1, 7, i64::MIN, i64::MAX, -9007199254740993] {
        assert_eq!(double_from_i64(i), (i as f64).to_bits());
    }
    for a in [-1.5f64, -0.0, 0.0, 2.0, f64::INFINITY, f64::NAN] {
        for b in [-1.5f64, -0.0, 0.0, 2.0, f64::INFINITY, f64::NAN] {
            assert_eq!(is_less(a.to_bits(), b.to_bits()), a < b);
        }
    }
}

#[test]
fn instants_are_shown_and_read() {
    let ts = Timestamp::from_timestamp(1_718_452_800, 500_000_000).unwrap();
    assert_eq!(ts.to_rfc3339(), "2024-06-15T12:00:00.500Z");
    assert_eq!(Timestamp::parse_rfc3339("2024-06-15T12:00:00.5Z"), Some(ts));
    assert_eq!(Timestamp::parse_rfc3339("noon"), None);
    assert_eq!(Timestamp::from_nanos(1_718_452_800_500_000_000), ts);
    assert_eq!(ts.timestamp_nanos_opt(), Some(1_718_452_800_500_000_000));
    assert_eq!(Timestamp::from_timestamp(i64::MAX, 0), None);
    assert_eq!(to_i64(to_u64(-5)), -5);
}

fn sum(_samples: &Vec<Sample>) -> u64 {
    0
}

#[test]
fn events_come_back_from_messages() {
    let mut log = OtelLog::from("hello");
    log.insert(&field("key"), text("value"), "");
    log.metadata_mut().source_id = Some("in".to_string());
    match decode_event(encode_event(Event::Log(log.clone()), shown, power), sum) {
        Event::Log(back) => assert_eq!(back, log),
        other => panic!("expected a log, got {other:?}"),
    }
    let span = OtelSpan::new(Span { name: "op".to_string(), kind: 2, ..Default::default() });
    match decode_event(encode_event(Event::Trace(span.clone()), shown, power), sum) {
        Event::Trace(back) => assert_eq!(back, span),
        other => panic!("expected a span, got {other:?}"),
    }
}

#[test]
fn arrays_come_back_from_messages() {
    let logs = EventArray::from(vec![OtelLog::from("a"), OtelLog::from("b")]);
    let back = decode_array(encode_array(logs, shown, power), sum);
    let bodies: Vec<String> =
        back.into_events().iter().map(|e| e.as_log().body_string("")).collect();
    assert_eq!(bodies, vec!["a", "b"]);

    let metric = OtelMetric::new_gauge("g".to_string(), 2.5f64.to_bits()).with_namespace(Some("ns"));
    let back = decode_array(encode_array(EventArray::from(metric), shown, power), sum);
    assert!(back.is_otel_metrics());
    let events = back.into_events();
    assert_eq!(events[0].as_metric().name(), "g");
    assert_eq!(events[0].as_metric().namespace(), Some("ns"));
    assert_eq!(events[0].as_metric().first_value_as_f64(), Some(2.5f64.to_bits()));
}

#[test]
fn empty_arrays_keep_their_kind() {
    for array in [EventArray::Logs(vec![]), EventArray::Metrics(vec![]), EventArray::Traces(vec![])] {
        let kind = match &array {
            EventArray::Logs(_) => "logs",
            EventArray::Metrics(_) => "metrics",
            EventArray::Traces(_) => "traces",
        };
        let message = encode_array(array, shown, power);
        let sent = match &message {
            WireEventArray::Logs(_) => "logs",
            WireEventArray::Metrics(_) => "metrics",
            WireEventArray::Traces(_) => "traces",
        };
        assert_eq!(sent, kind);
        let back = match decode_array(message, |_: &Vec<Sample>| 0) {
            EventArray::Logs(a) => ("logs", a.len()),
            EventArray::Metrics(a) => ("metrics", a.len()),
            EventArray::Traces(a) => ("traces", a.len()),
        };
        assert_eq!(back, (kind, 0));
    }
}

#[test]
fn items_come_back_in_order() {
    let items = Value::Array(vec![Value::Integer(1), text("a"), Value::Array(vec![Value::Null])]);
    let message = encode_value(&items);
    match &message {
        WireValue::Array(a) => assert_eq!(a.len(), 3),
        other => panic!("{other:?}"),
    }
    assert_eq!(decode_value(&message), Some(items));
}
