use vector_core::any_value::{int_value, string_value, KeyValue};
use vector_core::attributes::OtelAttributes;
use vector_core::event::{Event, MaybeAsLogMut};
use vector_core::event_tags::{OptionalTag, Tags};
use vector_core::keyed::KeyedMap;
use vector_core::log::OtelLog;
use vector_core::metadata::EventMetadata;
use vector_core::metric::OtelMetric;
use vector_core::metric_data::{MetricData, MetricName, MetricSeries, MetricTime, MetricValue};
use vector_core::metric_kind::{Bucket, MetricKind, Quantile, Sample, StatisticKind};
use vector_core::otlp::{InstrumentationScope, LogRecord, Resource};
use vector_core::otlp_span::{Span, SpanEvent, SpanLink, Status};
use vector_core::path::{OwnedSegment, OwnedTargetPath, OwnedValuePath, PathPrefix};
use vector_core::span::OtelSpan;
use vector_core::target::{TargetEvents, VrlTarget};
use vector_core::time::Timestamp;
use vector_core::value::Value;

fn value_path(segments: Vec<OwnedSegment>) -> OwnedValuePath {
    OwnedValuePath { segments }
}

fn at(segments: Vec<OwnedSegment>) -> OwnedTargetPath {
    OwnedTargetPath { prefix: PathPrefix::Event, path: value_path(segments) }
}

fn name(name: &str) -> OwnedSegment {
    OwnedSegment::Field(name.to_string())
}

fn index(i: isize) -> OwnedSegment {
    OwnedSegment::Index(i)
}

fn text(s: &str) -> Value {
    Value::from_text(s)
}

fn pair(key: &str, value: &str) -> KeyValue {
    KeyValue { key: key.to_string(), value: Some(string_value(value)) }
}

fn scope() -> InstrumentationScope {
    InstrumentationScope {
        name: "my-lib".to_string(),
        version: "1.0".to_string(),
        attributes: vec![pair("lang", "rust")],
        dropped_attributes_count: 2,
    }
}

fn resource() -> Resource {
    Resource { attributes: vec![pair("host", "box1")], dropped_attributes_count: 1 }
}

fn span() -> Span {
    Span {
        trace_id: vec![0x11; 16],
        span_id: vec![0x22; 8],
        name: "GET /api".to_string(),
        kind: 2,
        start_time_unix_nano: 100,
        end_time_unix_nano: 200,
        attributes: vec![pair("http.method", "GET")],
        events: vec![SpanEvent { name: "e".to_string(), time_unix_nano: 150, ..Default::default() }],
        links: vec![SpanLink { trace_id: vec![0x33; 16], ..Default::default() }],
        status: Some(Status { message: "OK".to_string(), code: 1 }),
        ..Default::default()
    }
}

#[test]
fn a_map_gives_back_what_was_written() {
    let mut map = KeyedMap::new();
    assert_eq!(map.insert("b".to_string(), text("1")), None);
    assert_eq!(map.insert("a".to_string(), text("2")), None);
    assert_eq!(map.insert("b".to_string(), text("3")), Some(text("1")));
    assert_eq!(map.get("b"), Some(&text("3")));
    assert_eq!(map.get("a"), Some(&text("2")));
    assert_eq!(map.remove("b"), Some(text("3")));
    assert_eq!(map.get("b"), None);
    assert_eq!(map.get("a"), Some(&text("2")));
    assert_eq!(map.len(), 1);
}

#[test]
fn a_value_gives_back_what_was_written_at_a_path() {
    let path = value_path(vec![name("a"), index(1), name("b")]);
    let other = value_path(vec![name("c")]);
    let mut value = Value::new_object();
    value.insert(&other, text("kept"));
    assert_eq!(value.insert(&path, Value::Integer(1)), None);
    assert_eq!(value.get(&path), Some(&Value::Integer(1)));
    assert_eq!(value.get(&other), Some(&text("kept")));
    assert_eq!(value.get(&value_path(vec![name("a"), index(-1), name("b")])), Some(&Value::Integer(1)));
    assert_eq!(value.remove(&path, true), Some(Value::Integer(1)));
    assert_eq!(value.get(&path), None);
    assert_eq!(value.get(&other), Some(&text("kept")));
}

#[test]
fn attributes_come_back_from_their_lists() {
    let kvs = vec![pair("a", "1"), pair("b", "2")];
    let attributes = OtelAttributes::from_key_values(kvs.clone());
    assert_eq!(attributes.to_key_values(), kvs);
    let back = OtelAttributes::from_object_map(&attributes.to_object_map());
    assert_eq!(back, attributes);
}

#[test]
fn parts_come_back() {
    let record = LogRecord { severity_number: 9, attributes: vec![pair("a", "b")], ..Default::default() };
    let log = OtelLog::from_parts(record.clone(), Some(resource()), Some(scope()), EventMetadata::default());
    let (r, res, sc, _) = log.into_parts();
    assert_eq!((r, res, sc), (record, Some(resource()), Some(scope())));

    let event = OtelSpan::from_parts(span(), Some(resource()), Some(scope()), EventMetadata::default());
    let (s, res, sc, _) = event.into_parts();
    assert_eq!((s, res, sc), (span(), Some(resource()), Some(scope())));

    let mut metric = OtelMetric::new_gauge("g".to_string(), 1.0f64.to_bits());
    metric.set_data_point_attribute("a".to_string(), string_value("b"));
    let message = metric.metric_proto();
    let event = OtelMetric::from_parts(message.clone(), Some(resource()), None, EventMetadata::default());
    let (m, res, sc, _) = event.into_parts();
    assert_eq!((m, res, sc), (message, Some(resource()), None));
}

#[test]
fn events_come_back_from_a_program() {
    let log = OtelLog::from_parts(
        LogRecord {
            body: Some(string_value("hello")),
            severity_text: "INFO".to_string(),
            trace_id: vec![0x11; 16],
            attributes: vec![KeyValue { key: "n".to_string(), value: Some(int_value(3)) }],
            ..Default::default()
        },
        Some(resource()),
        Some(scope()),
        EventMetadata::default(),
    );
    match VrlTarget::new(Event::Log(log.clone()), false).into_events() {
        TargetEvents::One(Event::Log(back)) => assert!(back.event_data_eq(&log)),
        other => panic!("expected one log, got {other:?}"),
    }
    let span = OtelSpan::from_parts(span(), Some(resource()), Some(scope()), EventMetadata::default());
    match VrlTarget::new(Event::Trace(span.clone()), false).into_events() {
        TargetEvents::One(Event::Trace(back)) => assert!(back.event_data_eq(&span)),
        other => panic!("expected one span, got {other:?}"),
    }
    let metric = OtelMetric::new_gauge("g".to_string(), 1.0f64.to_bits());
    match VrlTarget::new(Event::Metric(metric.clone()), false).into_events() {
        TargetEvents::One(Event::Metric(back)) => assert!(back.event_data_eq(&metric)),
        other => panic!("expected one metric, got {other:?}"),
    }
}

#[test]
fn items_of_an_attribute_can_be_written() {
    let path = at(vec![name("tags"), index(2)]);
    let mut log = OtelLog::default();
    log.insert(&path, text("x"), "x");
    assert_eq!(log.get(&path), Some(text("x")));
    assert_eq!(log.get(&at(vec![name("tags"), index(0)])), Some(Value::Null));
    let mut span = OtelSpan::new(span());
    span.insert(&path, text("y"), "y");
    assert_eq!(span.get(&path), Some(text("y")));
    assert_eq!(span.name(), "GET /api");
}

fn sum(samples: &Vec<Sample>) -> u64 {
    let mut total = 0.0;
    for sample in samples {
        total += f64::from_bits(sample.value) * f64::from(sample.rate);
    }
    total.to_bits()
}

fn power(scale: i32, exponent: i32) -> u64 {
    2f64.powf(2f64.powi(-scale)).powi(exponent).to_bits()
}

fn made(value: MetricValue) -> OtelMetric {
    OtelMetric::from_metric_parts(
        MetricSeries {
            name: MetricName { name: "m".to_string(), namespace: None },
            tags: None,
        },
        MetricData {
            time: MetricTime {
                timestamp: Timestamp::from_timestamp(10, 0),
                interval_ms: Some(500),
            },
            kind: MetricKind::Absolute,
            value,
        },
        EventMetadata::default(),
        sum,
    )
}

#[test]
fn values_of_metrics_come_back() {
    let bits = |d: f64| d.to_bits();
    let values = || {
        vec![
            MetricValue::Counter { value: bits(1.5) },
            MetricValue::Gauge { value: bits(-2.0) },
            MetricValue::SetOf { values: vec!["a".to_string(), "b".to_string()] },
            MetricValue::Distribution {
                samples: vec![Sample { value: bits(2.0), rate: 3 }],
                statistic: StatisticKind::Histogram,
            },
            MetricValue::AggregatedHistogram {
                buckets: vec![
                    Bucket { upper_limit: bits(1.0), count: 2 },
                    Bucket { upper_limit: bits(f64::INFINITY), count: 1 },
                ],
                count: 3,
                sum: bits(4.0),
            },
            MetricValue::AggregatedSummary {
                quantiles: vec![Quantile { quantile: bits(0.5), value: bits(7.0) }],
                count: 2,
                sum: bits(9.0),
            },
        ]
    };
    for (value, same) in values().into_iter().zip(values()) {
        let metric = made(value);
        assert_eq!(metric.value(power), same);
        assert_eq!(metric.timestamp(), Timestamp::from_timestamp(10, 0));
        assert_eq!(metric.interval_ms(), Some(500));
    }
}

#[test]
fn zeroed_metrics_stay_zero() {
    let mut metric = OtelMetric::new_histogram(
        "h".to_string(),
        MetricKind::Incremental,
        &vec![Bucket { upper_limit: 1.0f64.to_bits(), count: 4 }],
        4,
        2.0f64.to_bits(),
    );
    metric.zero();
    let once = metric.clone();
    metric.zero();
    assert!(metric.event_data_eq(&once));
    assert!(metric.is_delta());
    assert!(!metric.event_data_eq(&OtelMetric::new_gauge("h".to_string(), 0)));
}

#[test]
fn kinds_are_kept() {
    for kind in [MetricKind::Incremental, MetricKind::Absolute] {
        let mut metric = OtelMetric::new_counter("c".to_string(), MetricKind::Absolute, 0);
        metric.set_kind(kind);
        assert_eq!(metric.kind(), kind);
    }
}

#[test]
fn identities_and_sources_are_kept() {
    let mut event = Event::from(OtelLog::from("a")).with_source_type("file");
    event.set_source_id("in".to_string());
    assert_eq!(event.source_id(), Some(&"in".to_string()));
    assert_eq!(event.metadata().source_type, Some("file".to_string()));
    assert!(event.maybe_as_log_mut().is_some());
    assert!(event.maybe_as_otel_log().is_some());
    assert!(event.try_into_trace().is_none());
}

fn shown(bits: u64) -> String {
    f64::from_bits(bits).to_string()
}

#[test]
fn events_become_metrics() {
    let event = Event::Metric(made(MetricValue::Counter { value: 1.5f64.to_bits() }));
    let (series, data, _) = event.to_metric(shown, power);
    assert_eq!(series.name.name, "m");
    assert_eq!(data.value, MetricValue::Counter { value: 1.5f64.to_bits() });
    assert!(event.try_into_metric(shown, power).is_some());
    assert!(Event::Log(OtelLog::from("a")).try_into_metric(shown, power).is_none());
}

#[test]
fn events_are_counted_by_source_and_service() {
    let mut log = OtelLog::from("a");
    log.set_resource_attribute("service.name".to_string(), string_value("svc"));
    log.metadata_mut().source_id = Some("in".to_string());
    let tags = log.get_tags(Tags { emit_source: true, emit_service: true });
    assert_eq!(tags.source, OptionalTag::Specified(Some("in".to_string())));
    assert_eq!(tags.service, OptionalTag::Specified(Some("svc".to_string())));
    let event = Event::Log(log);
    let tags = event.get_tags(Tags { emit_source: false, emit_service: false });
    assert_eq!(tags.source, OptionalTag::Ignored);
    assert_eq!(tags.service, OptionalTag::Ignored);
    let tags = OtelSpan::new(span()).get_tags();
    assert_eq!(tags.source, OptionalTag::Specified(None));
    let metric = OtelMetric::new_gauge("g".to_string(), 0);
    let tags = metric.get_tags(Tags { emit_source: true, emit_service: true });
    assert_eq!(tags.service, OptionalTag::Specified(None));
}

#[test]
fn writes_of_different_keys_commute() {
    let mut one = KeyedMap::new();
    one.insert("a".to_string(), text("1"));
    one.insert("b".to_string(), text("2"));
    let mut other = KeyedMap::new();
    other.insert("b".to_string(), text("2"));
    other.insert("a".to_string(), text("1"));
    assert_eq!(one, other);
}
