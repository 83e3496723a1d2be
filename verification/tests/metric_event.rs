use vector_core::any_value::{string_value, AnyValue, ArrayValue, KeyValue, OtelValueKind};
use vector_core::attributes::OtelAttributes;
use vector_core::otel_metric::{MetricView, OtelMetric};
use vector_core::metric_kind::{Bucket, MetricKind, Sample};
use vector_core::otlp::Resource;
use vector_core::otlp_metric::{
    Buckets, Data, ExponentialHistogram, ExponentialHistogramDataPoint, Metric,
};

fn bits(double: f64) -> u64 {
    double.to_bits()
}

fn shown(bits: u64) -> String {
    f64::from_bits(bits).to_string()
}

fn plus(a: u64, b: u64) -> u64 {
    (f64::from_bits(a) + f64::from_bits(b)).to_bits()
}

fn minus(a: u64, b: u64) -> u64 {
    (f64::from_bits(a) - f64::from_bits(b)).to_bits()
}

fn midpoint(scale: i32, exponent: i32) -> u64 {
    let base = 2f64.powf(2f64.powi(-scale));
    ((base.powi(exponent) + base.powi(exponent + 1)) / 2.0).to_bits()
}

fn all_bits(doubles: &[f64]) -> Vec<u64> {
    doubles.iter().map(|d| d.to_bits()).collect()
}

fn make_exp_hist(
    scale: i32,
    positive_offset: i32,
    positive_counts: Vec<u64>,
    zero_count: u64,
    count: u64,
    sum: f64,
) -> OtelMetric {
    OtelMetric::new(Metric {
        name: "test_exp_hist".into(),
        description: String::new(),
        unit: String::new(),
        metadata: vec![],
        data: Some(Data::ExponentialHistogram(ExponentialHistogram {
            data_points: vec![ExponentialHistogramDataPoint {
                attributes: vec![],
                start_time_unix_nano: 100,
                time_unix_nano: 200,
                count,
                sum: Some(bits(sum)),
                scale,
                zero_count,
                positive: Some(Buckets {
                    offset: positive_offset,
                    bucket_counts: positive_counts,
                }),
                negative: None,
                flags: 0,
                exemplars: vec![],
                min: Some(bits(0.001)),
                max: Some(bits(10.0)),
                zero_threshold: bits(0.0),
            }],
            aggregation_temporality: 2,
        })),
    })
}

#[test]
fn convert_exp_hist_to_histogram_basic() {
    let bounds = all_bits(&[0.005, 0.01, 0.025, 0.05, 0.1, 0.25, 0.5, 1.0, 2.5, 5.0, 10.0]);
    let mut metric = make_exp_hist(0, 0, vec![5, 3, 2], 1, 11, 7.5);

    assert!(metric.convert_exponential_to_histogram(&bounds, midpoint));

    match metric.view_data() {
        MetricView::Histogram { bounds: b, counts, count, sum } => {
            assert_eq!(b.len(), bounds.len());
            assert_eq!(counts.len(), bounds.len() + 1);
            assert_eq!(count, 11);
            assert_eq!(sum, bits(7.5));
            let total: u64 = counts.iter().sum();
            assert_eq!(total, 11);
        }
        other => panic!("Expected Histogram, got: {other:?}"),
    }
}

#[test]
fn convert_exp_hist_preserves_timestamps() {
    let bounds = all_bits(&[1.0, 10.0]);
    let mut metric = make_exp_hist(0, 0, vec![5], 0, 5, 5.0);

    metric.convert_exponential_to_histogram(&bounds, midpoint);

    if let Some(Data::Histogram(h)) = metric.metric_proto().data.as_ref() {
        let dp = &h.data_points[0];
        assert_eq!(dp.start_time_unix_nano, 100);
        assert_eq!(dp.time_unix_nano, 200);
    } else {
        panic!("Expected Histogram data after conversion");
    }
}

#[test]
fn convert_exp_hist_preserves_temporality() {
    let bounds = all_bits(&[1.0]);
    let mut metric = make_exp_hist(0, 0, vec![1], 0, 1, 1.0);

    metric.convert_exponential_to_histogram(&bounds, midpoint);

    assert!(metric.is_cumulative());
}

#[test]
fn convert_noop_on_non_exp_hist() {
    let mut metric = OtelMetric::new_gauge("test_gauge".to_string(), bits(42.0));
    assert!(!metric.convert_exponential_to_histogram(&all_bits(&[1.0, 10.0]), midpoint));
    match metric.view_data() {
        MetricView::Gauge { .. } => {}
        other => panic!("Expected Gauge, got: {other:?}"),
    }
}

#[test]
fn convert_exp_hist_empty_data_points() {
    let mut metric = OtelMetric::new(Metric {
        name: "empty_exp".into(),
        description: String::new(),
        unit: String::new(),
        metadata: vec![],
        data: Some(Data::ExponentialHistogram(ExponentialHistogram {
            data_points: vec![],
            aggregation_temporality: 1,
        })),
    });

    assert!(metric.convert_exponential_to_histogram(&all_bits(&[1.0, 10.0]), midpoint));

    assert!(metric.is_delta());
}

#[test]
fn convert_exp_hist_zero_count_placed_correctly() {
    let bounds = all_bits(&[0.005, 0.01]);
    let mut metric = make_exp_hist(0, 5, vec![], 10, 10, 0.0);

    metric.convert_exponential_to_histogram(&bounds, midpoint);

    match metric.view_data() {
        MetricView::Histogram { counts, .. } => {
            assert_eq!(counts[0], 10, "zero_count should land in first bucket (<=0.005)");
        }
        other => panic!("Expected Histogram, got: {other:?}"),
    }
}

#[test]
fn buckets_are_counted_by_their_middle() {
    let mut metric = make_exp_hist(0, 0, vec![5, 3, 2], 1, 11, 7.5);
    metric.convert_exponential_to_histogram(&all_bits(&[1.0, 2.5, 5.0]), midpoint);
    match metric.view_data() {
        MetricView::Histogram { counts, .. } => assert_eq!(counts, &[1, 5, 3, 2]),
        other => panic!("Expected Histogram, got: {other:?}"),
    }
}

fn set(values: &[&str]) -> OtelMetric {
    let values = values.iter().map(|v| v.to_string()).collect();
    OtelMetric::new_set_from_values("s".to_string(), MetricKind::Incremental, &values)
}

fn held(metric: &OtelMetric) -> Vec<String> {
    match metric.view_data() {
        MetricView::SetOf { values } => values,
        other => panic!("Expected a set, got: {other:?}"),
    }
}

#[test]
fn sets_are_united_and_reduced() {
    let mut metric = set(&["b", "a"]);
    assert!(metric.is_set());
    assert_eq!(held(&metric), vec!["a", "b"]);
    assert!(metric.add(&set(&["c", "a"]), plus));
    assert_eq!(held(&metric), vec!["a", "b", "c"]);
    assert_eq!(metric.first_value_as_f64(), Some(bits(3.0)));
    assert!(metric.subtract(&set(&["a", "z"]), minus));
    assert_eq!(held(&metric), vec!["b", "c"]);
    assert_eq!(metric.first_value_as_f64(), Some(bits(2.0)));
}

#[test]
fn every_metric_can_be_of_a_kind() {
    let mut metric = OtelMetric::new_gauge("g".to_string(), bits(1.0));
    assert_eq!(metric.kind(), MetricKind::Absolute);
    metric.set_kind(MetricKind::Incremental);
    assert_eq!(metric.kind(), MetricKind::Incremental);
    let mut metric = OtelMetric::new_counter("c".to_string(), MetricKind::Absolute, bits(1.0));
    metric.set_kind(MetricKind::Incremental);
    assert!(metric.is_delta());
    assert_eq!(
        OtelMetric::new_gauge_delta("g".to_string(), bits(1.0)).kind(),
        MetricKind::Incremental
    );
}

#[test]
fn earlier_attributes_of_a_resource_stay() {
    let mut metric = OtelMetric::new_gauge("g".to_string(), bits(1.0));
    metric.set_namespace("ns");
    metric.set_resource(Resource {
        attributes: vec![
            KeyValue { key: "host".to_string(), value: Some(string_value("box1")) },
            KeyValue { key: "metric.namespace".to_string(), value: Some(string_value("other")) },
        ],
        dropped_attributes_count: 0,
    });
    assert_eq!(metric.namespace(), Some("ns"));
    assert_eq!(metric.resource_attribute("host"), Some(&string_value("box1")));
    metric.flatten_resource_to_tags(&vec!["host".to_string(), "absent".to_string()]);
    assert_eq!(metric.tag_value("host", shown), Some("box1".to_string()));
    let all = metric.all_tags_including_resource().unwrap();
    assert_eq!(all.get("resource.host"), Some(&string_value("box1")));
    assert_eq!(all.get("host"), Some(&string_value("box1")));
    assert_eq!(all.len(), 2);
}

#[test]
fn one_value_falls_into_one_bucket() {
    let steps = |fraction: u64| ((f64::from_bits(fraction) * 2.0).log2() * 1048576.0) as i32;
    let metric = OtelMetric::new_exponential_histogram_single("e".to_string(), bits(2.0), steps);
    match metric.view_data() {
        MetricView::ExponentialHistogram { count, sum, zero_count, positive, .. } => {
            assert_eq!(count, 1);
            assert_eq!(sum, bits(2.0));
            assert_eq!(zero_count, 0);
            assert_eq!(positive.unwrap().bucket_counts, vec![1]);
        }
        other => panic!("Expected ExponentialHistogram, got: {other:?}"),
    }
    let zero = OtelMetric::new_exponential_histogram_single("e".to_string(), bits(0.0), steps);
    match zero.view_data() {
        MetricView::ExponentialHistogram { zero_count, .. } => assert_eq!(zero_count, 1),
        other => panic!("Expected ExponentialHistogram, got: {other:?}"),
    }
}

#[test]
fn data_is_shown_in_words() {
    let metric = OtelMetric::new_counter("c".to_string(), MetricKind::Incremental, bits(1.5));
    assert_eq!(metric.view_data().as_name(), "counter");
    assert_eq!(metric.view_data().text(shown), "counter: 1.5");
    let metric = make_exp_hist(-1, 0, vec![5], 0, 5, 5.0);
    assert_eq!(
        metric.view_data().text(shown),
        "exponential histogram: scale=-1, count=5, sum=5"
    );
}

#[test]
fn samples_make_a_histogram() {
    let samples = vec![
        Sample { value: bits(1.0), rate: 10 },
        Sample { value: bits(2.0), rate: 20 },
    ];
    let metric = OtelMetric::new_histogram_from_samples(
        "d".to_string(),
        MetricKind::Incremental,
        &samples,
        |_| bits(50.0),
    );
    match metric.view_data() {
        MetricView::Histogram { bounds, counts, count, sum } => {
            assert_eq!(bounds, all_bits(&[1.0, 2.0]).as_slice());
            assert_eq!(&counts[..2], &[10, 20]);
            assert_eq!(count, 30);
            assert_eq!(sum, bits(50.0));
        }
        other => panic!("Expected Histogram, got: {other:?}"),
    }
}

#[test]
fn histograms_of_different_bounds_are_not_added() {
    let of = |limit: f64| {
        OtelMetric::new_histogram(
            "h".to_string(),
            MetricKind::Incremental,
            &vec![Bucket { upper_limit: bits(limit), count: 1 }],
            1,
            bits(1.0),
        )
    };
    let mut metric = of(1.0);
    assert!(!metric.add(&of(2.0), plus));
    assert!(metric.add(&of(1.0), plus));
}

#[test]
fn metric_events_are_put_in_words() {
    let metric = OtelMetric::new_counter("n".to_string(), MetricKind::Absolute, bits(2.0));
    assert_eq!(metric.text(shown), "n{} = counter: 2");
    let mut identity = metric.metric_series();
    assert_eq!(identity.text(shown), "n{}");
    identity.replace_tag("b".to_string(), "x".to_string());
    *identity.namespace_mut() = Some("ns".to_string());
    assert_eq!(identity.text(shown), "ns_n{b=\"x\"}");
    let mut attrs = OtelAttributes::new();
    attrs.insert("a".to_string(), AnyValue { value: None });
    attrs.insert("d".to_string(), AnyValue { value: Some(OtelValueKind::DoubleValue(bits(1.5))) });
    attrs.insert(
        "l".to_string(),
        AnyValue {
            value: Some(OtelValueKind::ArrayValue(ArrayValue {
                values: vec![string_value("p"), string_value("q")],
            })),
        },
    );
    let metric = metric.with_tags(Some(attrs));
    assert_eq!(metric.text(shown), "n{a,d=\"1.5\",l=\"q\"} = counter: 2");
    assert_eq!(metric.metric_series().text(shown), "n{a,d=\"1.5\",l=\"q\"}");
}
