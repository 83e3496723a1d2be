use vector_core::any_value::{string_value, AnyValue, ArrayValue, KeyValue, OtelValueKind};
use vector_core::event::Event;
use vector_core::json::Json;
use vector_core::metadata::EventMetadata;
use vector_core::metric::OtelMetric;
use vector_core::metric_data::{MetricData, MetricName, MetricSeries, MetricTime, MetricValue};
use vector_core::metric_kind::{
    samples_to_buckets, Bucket, MetricKind, MetricKindError, Quantile, Sample, StatisticKind,
};
use vector_core::metric_tags::{MetricTags, TagValue, TagValueSet};
use vector_core::otlp::{InstrumentationScope, Resource};
use vector_core::otlp_metric::{Data, Gauge, Metric, NumberDataPoint, NumberValue};
use vector_core::time::Timestamp;
use vector_core::value::Value;

fn bits(double: f64) -> u64 {
    double.to_bits()
}

fn shown(bits: u64) -> String {
    f64::from_bits(bits).to_string()
}

fn plus(a: u64, b: u64) -> u64 {
    (f64::from_bits(a) + f64::from_bits(b)).to_bits()
}

fn minus(a: u64, b: u64) -> u64 {
    (f64::from_bits(a) - f64::from_bits(b)).to_bits()
}

fn power(scale: i32, exponent: i32) -> u64 {
    2f64.powf(2f64.powi(-scale)).powi(exponent).to_bits()
}

fn sum(samples: &Vec<Sample>) -> u64 {
    let mut total = 0.0;
    for sample in samples {
        total += f64::from_bits(sample.value) * f64::from(sample.rate);
    }
    total.to_bits()
}

fn bucket(upper_limit: f64, count: u64) -> Bucket {
    Bucket { upper_limit: bits(upper_limit), count }
}

fn tags(pairs: &[(&str, &str)]) -> MetricTags {
    let mut tags = MetricTags::default();
    for (name, value) in pairs {
        tags.insert(name.to_string(), TagValue::Value(value.to_string()));
    }
    tags
}

fn counter(name: &str, kind: MetricKind, value: f64) -> OtelMetric {
    OtelMetric::new_counter(name.to_string(), kind, bits(value))
}

fn gauge(name: &str, value: f64) -> OtelMetric {
    OtelMetric::new_gauge(name.to_string(), bits(value))
}

#[test]
fn quantile_to_percentile_string() {
    let quantiles = [
        (-1.0, "0"),
        (0.0, "0"),
        (0.25, "25"),
        (0.50, "50"),
        (0.999, "999"),
        (0.9999, "9999"),
        (0.99999, "9999"),
        (1.0, "100"),
        (3.0, "100"),
    ];

    for (quantile, expected) in quantiles {
        let quantile = Quantile { quantile: bits(quantile), value: bits(1.0) };
        let result =
            quantile.to_percentile_string(|b| format!("{}", f64::from_bits(b) * 100.0));
        assert_eq!(result, expected);
    }
}

#[test]
fn quantile_to_string() {
    let quantiles = [
        (-1.0, "0"),
        (0.0, "0"),
        (0.25, "0.25"),
        (0.50, "0.5"),
        (0.999, "0.999"),
        (0.9999, "0.9999"),
        (0.99999, "0.9999"),
        (1.0, "1"),
        (3.0, "1"),
    ];

    for (quantile, expected) in quantiles {
        let quantile = Quantile { quantile: bits(quantile), value: bits(1.0) };
        let result = quantile.to_quantile_string(shown);
        assert_eq!(result, expected);
    }
}

#[test]
fn otel_metric_event_name_and_unit() {
    let metric = Metric {
        name: "http.request.duration".to_string(),
        description: "Duration of HTTP requests".to_string(),
        unit: "ms".to_string(),
        ..Default::default()
    };
    let event = OtelMetric::new(metric);

    assert_eq!(event.name(), "http.request.duration");
    assert_eq!(event.description(), "Duration of HTTP requests");
    assert_eq!(event.unit(), "ms");
}

#[test]
fn metric_to_otel_metric_round_trip_counter() {
    let now = Timestamp::from_timestamp(1_700_000_000, 0);
    let otel = counter("requests_total", MetricKind::Incremental, 42.0)
        .with_namespace(Some("http"))
        .with_timestamp(now);

    assert_eq!(otel.name(), "requests_total");
    assert_eq!(otel.namespace(), Some("http"));
    assert_eq!(otel.kind(), MetricKind::Incremental);
    match otel.value(power) {
        MetricValue::Counter { value } => assert_eq!(value, bits(42.0)),
        other => panic!("expected Counter, got {other:?}"),
    }
    assert_eq!(otel.timestamp(), now);
}

#[test]
fn metric_to_otel_metric_round_trip_gauge() {
    let otel = gauge("temperature", 98.6);

    assert_eq!(otel.name(), "temperature");
    assert_eq!(otel.kind(), MetricKind::Absolute);
    match otel.value(power) {
        MetricValue::Gauge { value } => assert_eq!(value, bits(98.6)),
        other => panic!("expected Gauge, got {other:?}"),
    }
}

#[test]
fn metric_to_otel_metric_round_trip_histogram() {
    let buckets = vec![bucket(5.0, 10), bucket(10.0, 20), bucket(f64::INFINITY, 5)];
    let otel = OtelMetric::new_histogram(
        "latency".to_string(),
        MetricKind::Absolute,
        &buckets,
        35,
        bits(150.0),
    );

    assert_eq!(otel.name(), "latency");
    match otel.value(power) {
        MetricValue::AggregatedHistogram { buckets, count, sum } => {
            assert_eq!(count, 35);
            assert_eq!(sum, bits(150.0));
            assert_eq!(buckets.len(), 3);
            assert_eq!(buckets[0].count, 10);
            assert_eq!(buckets[0].upper_limit, bits(5.0));
        }
        other => panic!("expected AggregatedHistogram, got {other:?}"),
    }
}

#[test]
fn from_metric_for_event_produces_otel_metric() {
    let otel = gauge("test", 1.0);
    let event: Event = Event::Metric(otel);
    assert!(matches!(event, Event::Metric(_)), "expected Event::Metric, got {event:?}");

    let metric = event.try_into_otel_metric().expect("should convert back");
    assert_eq!(metric.name(), "test");
}

#[test]
fn tag_value_searches_data_point_resource_and_scope() {
    let otel = counter("test_metric", MetricKind::Incremental, 1.0)
        .with_namespace(Some("ns"))
        .with_tags(Some(tags(&[("env", "prod")])));

    assert_eq!(otel.tag_value("env", shown), Some("prod".to_string()));
    assert!(otel.tag_value("nonexistent", shown).is_none());

    let otel_with_scope = OtelMetric::from_parts(
        otel.metric.clone(),
        otel.resource.clone(),
        Some(InstrumentationScope {
            name: "my-scope".into(),
            version: "1.0".into(),
            ..Default::default()
        }),
        EventMetadata::default(),
    );
    assert_eq!(otel_with_scope.tag_value("scope.name", shown), Some("my-scope".to_string()));
    assert_eq!(otel_with_scope.tag_value("scope.version", shown), Some("1.0".to_string()));
}

fn single(tags: &MetricTags, name: &str) -> Option<String> {
    let set: &TagValueSet = tags.tags.get(name)?;
    match set.values.last() {
        Some(TagValue::Value(v)) => Some(v.clone()),
        _ => None,
    }
}

#[test]
fn tags_builds_metric_tags_from_proto() {
    let otel = counter("test_metric", MetricKind::Incremental, 1.0)
        .with_tags(Some(tags(&[("env", "prod"), ("region", "us-east")])));

    let tags = otel.tags(shown).expect("should have tags");
    assert_eq!(single(&tags, "env"), Some("prod".to_string()));
    assert_eq!(single(&tags, "region"), Some("us-east".to_string()));

    let empty = gauge("empty", 0.0);
    assert!(empty.tags(shown).is_none());
}

fn parts(name: &str, kind: MetricKind, value: MetricValue) -> OtelMetric {
    OtelMetric::from_metric_parts(
        MetricSeries {
            name: MetricName { name: name.to_string(), namespace: None },
            tags: None,
        },
        MetricData { time: MetricTime { timestamp: None, interval_ms: None }, kind, value },
        EventMetadata::default(),
        sum,
    )
}

#[test]
fn new_counter_matches_from_metric_parts() {
    let direct = counter("requests", MetricKind::Incremental, 42.0);
    let via_ctor =
        parts("requests", MetricKind::Incremental, MetricValue::Counter { value: bits(42.0) });

    assert_eq!(direct.name(), via_ctor.name());
    assert_eq!(direct.kind(), via_ctor.kind());
    assert_eq!(direct.value(power), via_ctor.value(power));
}

#[test]
fn new_gauge_matches_from_metric_parts() {
    let direct = gauge("temperature", 98.6);
    let via_ctor =
        parts("temperature", MetricKind::Absolute, MetricValue::Gauge { value: bits(98.6) });

    assert_eq!(direct.name(), via_ctor.name());
    assert_eq!(direct.kind(), via_ctor.kind());
    assert_eq!(direct.value(power), via_ctor.value(power));
}

#[test]
fn new_histogram_matches_from_metric_parts() {
    let buckets = vec![bucket(1.0, 10), bucket(5.0, 20), bucket(10.0, 5)];
    let direct = OtelMetric::new_histogram(
        "request_duration".to_string(),
        MetricKind::Absolute,
        &buckets,
        35,
        bits(8.0),
    );
    let via_ctor = parts(
        "request_duration",
        MetricKind::Absolute,
        MetricValue::AggregatedHistogram { buckets, count: 35, sum: bits(8.0) },
    );

    assert_eq!(direct.name(), via_ctor.name());
    assert_eq!(direct.kind(), via_ctor.kind());
    assert_eq!(direct.value(power), via_ctor.value(power));
}

#[test]
fn new_summary_matches_from_metric_parts() {
    let quantiles = vec![
        Quantile { quantile: bits(0.5), value: bits(100.0) },
        Quantile { quantile: bits(0.99), value: bits(200.0) },
    ];
    let direct =
        OtelMetric::new_summary("request_latency".to_string(), &quantiles, 50, bits(4200.0));
    let via_ctor = parts(
        "request_latency",
        MetricKind::Absolute,
        MetricValue::AggregatedSummary { quantiles, count: 50, sum: bits(4200.0) },
    );

    assert_eq!(direct.name(), via_ctor.name());
    assert_eq!(direct.value(power), via_ctor.value(power));
}

#[test]
fn with_namespace_tags_timestamp_matches_from_metric_parts() {
    let ts = Timestamp::parse_rfc3339("2025-01-01T00:00:00Z").unwrap();
    let tags = tags(&[("env", "prod")]);

    let direct = counter("requests", MetricKind::Incremental, 42.0)
        .with_namespace(Some("http"))
        .with_tags(Some(tags.clone()))
        .with_timestamp(Some(ts));

    let via_ctor = OtelMetric::from_metric_parts(
        MetricSeries {
            name: MetricName {
                name: "requests".to_string(),
                namespace: Some("http".to_string()),
            },
            tags: Some(tags),
        },
        MetricData {
            time: MetricTime { timestamp: Some(ts), interval_ms: None },
            kind: MetricKind::Incremental,
            value: MetricValue::Counter { value: bits(42.0) },
        },
        EventMetadata::default(),
        sum,
    );

    assert_eq!(direct.name(), via_ctor.name());
    assert_eq!(direct.namespace(), via_ctor.namespace());
    assert_eq!(direct.kind(), via_ctor.kind());
    assert_eq!(direct.value(power), via_ctor.value(power));
    assert_eq!(direct.timestamp(), via_ctor.timestamp());
    assert_eq!(direct.tag_value("env", shown), via_ctor.tag_value("env", shown));
}

fn find_env(m: &OtelMetric) -> OtelValueKind {
    m.first_dp_attrs()
        .and_then(|attrs| attrs.get("env"))
        .and_then(|av| av.clone().value)
        .expect("env attribute missing")
}

#[test]
fn with_tags_preserves_multi_value() {
    let mut tags = MetricTags::default();
    tags.replace("host".to_string(), TagValue::Value("srv01".to_string()));
    tags.set_multi_value(
        "env".to_string(),
        vec![
            TagValue::Value("prod".to_string()),
            TagValue::Bare,
            TagValue::Value("staging".to_string()),
        ],
    );

    let direct =
        counter("requests", MetricKind::Incremental, 1.0).with_tags(Some(tags.clone()));
    let via_ctor = counter("requests", MetricKind::Incremental, 1.0).with_tags(Some(tags));

    match (find_env(&direct), find_env(&via_ctor)) {
        (OtelValueKind::ArrayValue(a), OtelValueKind::ArrayValue(b)) => {
            assert_eq!(a.values.len(), 3);
            assert_eq!(a.values.len(), b.values.len());
        }
        other => panic!("expected ArrayValue on both sides, got {other:?}"),
    }
    assert_eq!(direct.tag_value("host", shown), via_ctor.tag_value("host", shown));
}

#[test]
fn otel_metric_add_sum() {
    let mut m1 = counter("c", MetricKind::Incremental, 10.0);
    let m2 = counter("c", MetricKind::Incremental, 5.0);
    assert!(m1.add(&m2, plus));
    assert_eq!(m1.first_value_as_f64(), Some(bits(15.0)));
}

#[test]
fn otel_metric_add_gauge() {
    let mut m1 = gauge("g", 10.0);
    let m2 = gauge("g", 3.0);
    assert!(m1.add(&m2, plus));
    assert_eq!(m1.first_value_as_f64(), Some(bits(13.0)));
}

#[test]
fn otel_metric_add_mismatched_types() {
    let mut m1 = counter("c", MetricKind::Incremental, 10.0);
    let m2 = gauge("g", 5.0);
    assert!(!m1.add(&m2, plus));
    assert_eq!(m1.first_value_as_f64(), Some(bits(10.0)));
}

#[test]
fn otel_metric_subtract_sum() {
    let mut m1 = counter("c", MetricKind::Incremental, 10.0);
    let m2 = counter("c", MetricKind::Incremental, 3.0);
    assert!(m1.subtract(&m2, minus));
    assert_eq!(m1.first_value_as_f64(), Some(bits(7.0)));
}

#[test]
fn otel_metric_subtract_sum_underflow() {
    let mut m1 = counter("c", MetricKind::Incremental, 3.0);
    let m2 = counter("c", MetricKind::Incremental, 10.0);
    assert!(!m1.subtract(&m2, minus));
    assert_eq!(m1.first_value_as_f64(), Some(bits(3.0)));
}

#[test]
fn otel_metric_zero() {
    let mut m = counter("c", MetricKind::Incremental, 42.0);
    m.zero();
    assert_eq!(m.first_value_as_f64(), Some(bits(0.0)));
}

#[test]
fn otel_metric_is_delta() {
    let delta = counter("c", MetricKind::Incremental, 1.0);
    let cumulative = counter("c", MetricKind::Absolute, 1.0);
    let gauge = gauge("g", 1.0);
    assert!(delta.is_delta());
    assert!(!cumulative.is_delta());
    assert!(!gauge.is_delta());
}

#[test]
fn otel_metric_is_cumulative() {
    let delta = counter("c", MetricKind::Incremental, 1.0);
    let cumulative = counter("c", MetricKind::Absolute, 1.0);
    let gauge = gauge("g", 1.0);
    assert!(!delta.is_cumulative());
    assert!(cumulative.is_cumulative());
    assert!(!gauge.is_cumulative(), "Gauge has no temporality per OTel spec");
}

#[test]
fn otel_metric_has_temporality() {
    let counter = counter("c", MetricKind::Incremental, 1.0);
    let gauge = gauge("g", 1.0);
    assert!(counter.has_temporality());
    assert!(!gauge.has_temporality());
}

#[test]
fn otel_metric_add_histogram() {
    let mut m1 = OtelMetric::new_histogram(
        "h".to_string(),
        MetricKind::Incremental,
        &vec![bucket(1.0, 5), bucket(2.0, 10)],
        15,
        bits(25.0),
    );
    let m2 = OtelMetric::new_histogram(
        "h".to_string(),
        MetricKind::Incremental,
        &vec![bucket(1.0, 3), bucket(2.0, 7)],
        10,
        bits(15.0),
    );
    assert!(m1.add(&m2, plus));
    if let MetricValue::AggregatedHistogram { buckets, count, sum } = m1.value(power) {
        assert_eq!(count, 25);
        assert_eq!(sum, bits(40.0));
        assert_eq!(buckets[0].count, 8);
        assert_eq!(buckets[1].count, 17);
    } else {
        panic!("expected AggregatedHistogram");
    }
}

#[test]
fn distributions_are_read_as_they_were_made() {
    let samples = vec![
        Sample { value: bits(1.0), rate: 3 },
        Sample { value: bits(4.0), rate: 2 },
    ];
    let metric = OtelMetric::new_distribution_from_samples(
        "d".to_string(),
        MetricKind::Incremental,
        &samples,
        StatisticKind::Summary,
        sum,
    );
    assert!(metric.is_distribution());
    assert_eq!(
        metric.value(power),
        MetricValue::Distribution { samples, statistic: StatisticKind::Summary }
    );
}

#[test]
fn sets_are_read_as_they_were_made() {
    let metric = OtelMetric::new_set_from_values(
        "s".to_string(),
        MetricKind::Incremental,
        &vec!["b".to_string(), "a".to_string(), "b".to_string()],
    );
    assert!(metric.is_set());
    match metric.value(power) {
        MetricValue::SetOf { values } => {
            assert_eq!(values, vec!["a".to_string(), "b".to_string()]);
        }
        other => panic!("expected a set, got {other:?}"),
    }
}

#[test]
fn metric_parts_come_back() {
    let metric = counter("requests", MetricKind::Incremental, 42.0)
        .with_namespace(Some("http"))
        .with_tags(Some(tags(&[("env", "prod")])));
    let (series, data, _) = metric.into_metric_parts(shown, power);
    assert_eq!(series.name.name, "requests");
    assert_eq!(series.name.namespace, Some("http".to_string()));
    assert_eq!(single(&series.tags.unwrap(), "env"), Some("prod".to_string()));
    assert_eq!(data.kind, MetricKind::Incremental);
    assert_eq!(data.value, MetricValue::Counter { value: bits(42.0) });
}

#[test]
fn lists_of_tags_are_reduced() {
    let mut metric = counter("c", MetricKind::Incremental, 1.0);
    metric.set_data_point_attribute(
        "env".to_string(),
        AnyValue {
            value: Some(OtelValueKind::ArrayValue(ArrayValue {
                values: vec![string_value("prod"), string_value("staging")],
            })),
        },
    );
    metric.reduce_tags_to_single();
    assert_eq!(metric.tag_value("env", shown), Some("staging".to_string()));
    assert!(metric.tag_matches("env", "staging", shown));
    assert!(!metric.tag_matches("env", "prod", shown));
}

#[test]
fn kinds_are_read_from_values() {
    assert!(matches!(
        MetricKind::try_from_value(&Value::from_text("incremental")),
        Ok(MetricKind::Incremental)
    ));
    assert!(matches!(
        MetricKind::try_from_value(&Value::from_text("absolute")),
        Ok(MetricKind::Absolute)
    ));
    assert_eq!(MetricKind::Absolute.to_value(), Value::from_text("absolute"));
    assert!(matches!(
        MetricKind::try_from_value(&Value::Integer(1)),
        Err(MetricKindError::NotBytes)
    ));
    assert!(matches!(
        MetricKind::try_from_value(&Value::Bytes(vec![0xff])),
        Err(MetricKindError::NotText)
    ));
    match MetricKind::try_from_value(&Value::from_text("other")) {
        Err(MetricKindError::Invalid { kind }) => assert_eq!(kind, "other"),
        _ => panic!("expected an invalid kind"),
    }
}

#[test]
fn samples_fall_into_buckets() {
    let samples = vec![
        Sample { value: bits(0.5), rate: 2 },
        Sample { value: bits(1.5), rate: 3 },
        Sample { value: bits(9.0), rate: 1 },
    ];
    let (buckets, count, total) =
        samples_to_buckets(&samples, &vec![bits(1.0), bits(2.0)], sum);
    assert_eq!(buckets, vec![bucket(1.0, 2), bucket(2.0, 3)]);
    assert_eq!(count, 6);
    assert_eq!(total, bits(14.5));
}

#[test]
fn integers_are_added_as_integers() {
    let point = |i: i64| {
        OtelMetric::new(Metric {
            name: "g".to_string(),
            data: Some(Data::Gauge(Gauge {
                data_points: vec![NumberDataPoint {
                    value: Some(NumberValue::AsInt(i)),
                    ..Default::default()
                }],
            })),
            ..Default::default()
        })
    };
    let mut metric = point(7);
    assert!(metric.add(&point(5), plus));
    assert_eq!(metric.first_value_as_f64(), Some(bits(12.0)));
    assert!(metric.subtract(&point(5), minus));
    match &metric.metric().data {
        Some(Data::Gauge(g)) => assert_eq!(g.data_points[0].value, Some(NumberValue::AsInt(7))),
        other => panic!("expected a gauge, got {other:?}"),
    }
}

#[test]
fn a_metric_is_written_as_json() {
    let metric = OtelMetric::from_parts(
        counter("c", MetricKind::Incremental, 1.5).metric_proto(),
        Some(Resource {
            attributes: vec![KeyValue {
                key: "host".to_string(),
                value: Some(string_value("box1")),
            }],
            dropped_attributes_count: 0,
        }),
        None,
        EventMetadata::default(),
    );
    match metric.to_json() {
        Json::Object(fields) => {
            let names: Vec<&str> = fields.iter().map(|(name, _)| name.as_str()).collect();
            assert_eq!(names, vec!["name", "sum", "resource"]);
        }
        _ => panic!("not an object"),
    }
}

#[test]
fn a_metric_can_be_the_body_of_a_log() {
    let body = counter("c", MetricKind::Incremental, 1.5).to_log_body();
    match body.value {
        Some(OtelValueKind::KvlistValue(list)) => {
            assert_eq!(list.values[0].key, "name");
            assert_eq!(list.values[0].value, Some(string_value("c")));
            assert_eq!(list.values[1].key, "sum");
        }
        other => panic!("expected a list of pairs, got {other:?}"),
    }
}

#[test]
fn tags_come_back_from_a_metric() {
    let mut all = tags(&[("env", "prod")]);
    all.set_multi_value(
        "zone".to_string(),
        vec![TagValue::Value("a".to_string()), TagValue::Bare, TagValue::Value("b".to_string())],
    );
    all.replace("bare".to_string(), TagValue::Bare);
    let parts = |tags| {
        (
            MetricSeries {
                name: MetricName { name: "n".to_string(), namespace: Some("ns".to_string()) },
                tags,
            },
            MetricData {
                time: MetricTime {
                    timestamp: Timestamp::parse_rfc3339("2024-06-15T12:00:00Z"),
                    interval_ms: Some(250),
                },
                kind: MetricKind::Incremental,
                value: MetricValue::SetOf { values: vec!["x".to_string(), "y".to_string()] },
            },
        )
    };
    let (series, data) = parts(Some(all.clone()));
    let metric = OtelMetric::from_metric_parts(series, data, EventMetadata::default(), sum);
    let (series, data, _) = metric.into_metric_parts(shown, power);
    let (wanted_series, wanted_data) = parts(Some(all));
    assert_eq!(series, wanted_series);
    assert_eq!(data, wanted_data);
}

#[test]
fn histograms_come_back_after_addition() {
    let histogram = |counts: [u64; 3], count: u64, total: f64| {
        OtelMetric::new_histogram(
            "h".to_string(),
            MetricKind::Absolute,
            &vec![bucket(1.0, counts[0]), bucket(2.0, counts[1]), bucket(f64::INFINITY, counts[2])],
            count,
            bits(total),
        )
    };
    let mut metric = histogram([1, 2, 3], 6, 10.0);
    let other = histogram([5, 0, 7], 12, 4.0);
    assert!(metric.add(&other, plus));
    assert_eq!(metric.metric, histogram([6, 2, 10], 18, 14.0).metric);
    assert!(metric.subtract(&other, minus));
    assert_eq!(metric.metric, histogram([1, 2, 3], 6, 10.0).metric);
    assert!(!metric.subtract(&other, minus));
    assert!(!metric.subtract(&histogram([0, 3, 0], 3, 0.0), minus));
    assert!(!metric.subtract(&histogram([0, 0, 0], 7, 0.0), minus));
}

fn words(value: &MetricValue) -> String {
    match value {
        MetricValue::Counter { value } => format!("<{}>", shown(*value)),
        MetricValue::Gauge { value } => format!("({})", shown(*value)),
        other => panic!("{other:?}"),
    }
}

#[test]
fn metrics_are_put_in_words() {
    let mut all = tags(&[("a", "x\"y"), ("c", "")]);
    all.replace("bare".to_string(), TagValue::Bare);
    all.set_multi_value(
        "z".to_string(),
        vec![TagValue::Value("1".to_string()), TagValue::Value("2".to_string()), TagValue::Bare],
    );
    let metric = counter("requests", MetricKind::Incremental, 2.5)
        .with_timestamp(Timestamp::parse_rfc3339("2024-06-15T12:00:00.5Z"))
        .with_tags(Some(all));
    assert_eq!(
        metric.text(shown, power, words),
        "2024-06-15T12:00:00.500Z requests{a=\"x\\\"y\",c=\"\",z=\"2\"} + <2.5>"
    );
    let metric = gauge("load", 1.0).with_namespace(Some("sys"));
    assert_eq!(metric.text(shown, power, words), "sys_load{} = (1)");
}
