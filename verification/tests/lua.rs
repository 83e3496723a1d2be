use vector_core::any_value::{string_value, AnyValue, ArrayValue, OtelValueKind};
use vector_core::attributes::OtelAttributes;
use vector_core::lua_table::{
    kind_from_lua, LuaData, LuaFields, LuaMetric, LuaMetricError, LuaTag,
};
use vector_core::metric_kind::{Bucket, MetricKind, Quantile, Sample};
use vector_core::otel_metric::OtelMetric;
use vector_core::time::Timestamp;

fn bits(double: f64) -> u64 {
    double.to_bits()
}

fn shown(bits: u64) -> String {
    f64::from_bits(bits).to_string()
}

fn sum(samples: &Vec<Sample>) -> u64 {
    let mut total = 0.0;
    for sample in samples {
        total += f64::from_bits(sample.value) * f64::from(sample.rate);
    }
    total.to_bits()
}

fn all_bits(doubles: &[f64]) -> Vec<u64> {
    doubles.iter().map(|d| d.to_bits()).collect()
}

fn table(otel: &OtelMetric, multi_value_tags: bool) -> LuaData {
    LuaMetric {
        otel: OtelMetric {
            event: otel.event.clone(),
            set_values: None,
            kind_override: otel.kind_override,
        },
        multi_value_tags,
    }
    .to_table(shown)
}

fn find<'a>(data: &'a LuaData, name: &str) -> Option<&'a LuaData> {
    match data {
        LuaData::Table(fields) => {
            for (key, value) in fields {
                if key == name {
                    return Some(value);
                }
            }
            None
        }
        other => panic!("not a table: {other:?}"),
    }
}

fn field<'a>(data: &'a LuaData, name: &str) -> &'a LuaData {
    find(data, name).expect("no such field")
}

fn at(data: &LuaData, i: usize) -> &LuaData {
    match data {
        LuaData::Sequence(items) => &items[i - 1],
        other => panic!("not a sequence: {other:?}"),
    }
}

fn len(data: &LuaData) -> usize {
    match data {
        LuaData::Sequence(items) => items.len(),
        other => panic!("not a sequence: {other:?}"),
    }
}

fn text(s: &str) -> LuaData {
    LuaData::Text(s.to_string())
}

fn double(d: f64) -> LuaData {
    LuaData::Double(bits(d))
}

fn attributes(key: &str, value: AnyValue) -> OtelAttributes {
    let mut attributes = OtelAttributes::default();
    attributes.insert(key.to_string(), value);
    attributes
}

fn list(texts: &[&str]) -> AnyValue {
    AnyValue {
        value: Some(OtelValueKind::ArrayValue(ArrayValue {
            values: texts.iter().map(|t| string_value(t)).collect(),
        })),
    }
}

fn fields(name: &str) -> LuaFields {
    LuaFields {
        name: name.to_string(),
        timestamp: None,
        interval_ms: None,
        namespace: None,
        tags: None,
        kind: None,
        counter: None,
        gauge: None,
        set: None,
        distribution: None,
        aggregated_histogram: None,
        aggregated_summary: None,
    }
}

fn buckets() -> Vec<Bucket> {
    [(1.0, 20), (2.0, 10), (4.0, 45), (8.0, 12)]
        .iter()
        .map(|(limit, count)| Bucket { upper_limit: bits(*limit), count: *count })
        .collect()
}

fn quantiles() -> Vec<Quantile> {
    [(0.1, 2.0), (0.25, 3.0), (0.5, 5.0), (0.75, 8.0), (0.9, 7.0), (0.99, 9.0), (1.0, 10.0)]
        .iter()
        .map(|(quantile, value)| Quantile { quantile: bits(*quantile), value: bits(*value) })
        .collect()
}

#[test]
fn into_lua_counter_full() {
    let ts = Timestamp::parse_rfc3339("2018-11-14T08:09:10.000000011Z").unwrap();
    let metric = OtelMetric::new_counter(
        "example counter".to_string(),
        MetricKind::Incremental,
        bits(1.0),
    )
    .with_namespace(Some("namespace_example"))
    .with_tags(Some(attributes("example tag", string_value("example value"))))
    .with_timestamp(Some(ts));

    for multi_value_tags in [false, true] {
        let metric = table(&metric, multi_value_tags);
        assert_eq!(field(&metric, "name"), &text("example counter"));
        assert_eq!(field(&metric, "namespace"), &text("namespace_example"));
        assert_eq!(field(&metric, "timestamp"), &LuaData::Instant(ts));
        let tag = field(field(&metric, "tags"), "example tag");
        if multi_value_tags {
            assert_eq!(at(tag, 1), &text("example value"));
        } else {
            assert_eq!(tag, &text("example value"));
        }
        assert_eq!(field(&metric, "kind"), &text("incremental"));
        assert_eq!(field(field(&metric, "counter"), "value"), &double(1.0));
    }
}

#[test]
fn read_multi_value_tag() {
    let metric = OtelMetric::new_counter(
        "example counter".to_string(),
        MetricKind::Incremental,
        bits(1.0),
    )
    .with_tags(Some(attributes("example tag", list(&["a", "b"]))));

    let metric = table(&metric, true);
    let tag = field(field(&metric, "tags"), "example tag");
    assert_eq!(at(tag, 1), &text("a"));
    assert_eq!(at(tag, 2), &text("b"));
}

#[test]
fn into_lua_counter_minimal() {
    let metric = OtelMetric::new_counter(
        "example counter".to_string(),
        MetricKind::Absolute,
        bits(0.577_215_66),
    );

    for multi_value_tags in [false, true] {
        let metric = table(&metric, multi_value_tags);
        assert_eq!(find(&metric, "timestamp"), None);
        assert_eq!(find(&metric, "tags"), None);
        assert_eq!(field(&metric, "kind"), &text("absolute"));
        assert_eq!(field(field(&metric, "counter"), "value"), &double(0.57721566));
    }
}

#[test]
fn into_lua_gauge() {
    let metric = OtelMetric::new_gauge("example gauge".to_string(), bits(1.618_033_9));
    let metric = table(&metric, false);
    assert_eq!(field(field(&metric, "gauge"), "value"), &double(1.6180339));
    assert_eq!(find(&metric, "counter"), None);
}

#[test]
fn into_lua_set() {
    let metric = LuaMetric {
        otel: OtelMetric::new_set_from_values(
            "example set".to_string(),
            MetricKind::Incremental,
            &vec!["value".to_string(), "another value".to_string()],
        ),
        multi_value_tags: false,
    }
    .to_table(shown);
    let values = field(field(&metric, "set"), "values");
    assert_eq!(len(values), 2);
    assert_eq!(at(values, 1), &text("another value"));
    assert_eq!(at(values, 2), &text("value"));
}

#[test]
fn into_lua_distribution() {
    let metric = OtelMetric::new_histogram_from_samples(
        "example distribution".to_string(),
        MetricKind::Incremental,
        &vec![Sample { value: bits(1.0), rate: 10 }, Sample { value: bits(1.0), rate: 20 }],
        sum,
    );
    let metric = table(&metric, false);
    let histogram = field(&metric, "aggregated_histogram");
    assert_eq!(field(histogram, "count"), &LuaData::Count(30));
    assert_eq!(field(histogram, "sum"), &double(30.0));
}

#[test]
fn into_lua_aggregated_histogram() {
    let metric = OtelMetric::new_histogram(
        "example histogram".to_string(),
        MetricKind::Incremental,
        &buckets(),
        87,
        bits(975.2),
    );
    let metric = table(&metric, false);
    let histogram = field(&metric, "aggregated_histogram");
    assert_eq!(len(field(histogram, "buckets")), 4);
    assert_eq!(at(field(histogram, "buckets"), 1), &double(1.0));
    assert_eq!(at(field(histogram, "buckets"), 4), &double(8.0));
    assert_eq!(len(field(histogram, "counts")), 5);
    assert_eq!(at(field(histogram, "counts"), 1), &LuaData::Count(20));
    assert_eq!(at(field(histogram, "counts"), 4), &LuaData::Count(12));
    assert_eq!(at(field(histogram, "counts"), 5), &LuaData::Count(0));
    assert_eq!(field(histogram, "count"), &LuaData::Count(87));
    assert_eq!(field(histogram, "sum"), &double(975.2));
}

#[test]
fn into_lua_aggregated_summary() {
    let metric =
        OtelMetric::new_summary("example summary".to_string(), &quantiles(), 197, bits(975.2));
    let metric = table(&metric, false);
    let summary = field(&metric, "aggregated_summary");
    assert_eq!(len(field(summary, "quantiles")), 7);
    assert_eq!(at(field(summary, "quantiles"), 2), &double(0.25));
    assert_eq!(len(field(summary, "values")), 7);
    assert_eq!(at(field(summary, "values"), 3), &double(5.0));
    assert_eq!(field(summary, "count"), &LuaData::Count(197));
    assert_eq!(field(summary, "sum"), &double(975.2));
}

#[test]
fn from_lua_counter_minimal() {
    let value = LuaFields { counter: Some(bits(0.57721566)), ..fields("example counter") };
    let expected = OtelMetric::new_counter(
        "example counter".to_string(),
        MetricKind::Absolute,
        bits(0.577_215_66),
    );
    assert!(value.into_metric(sum).unwrap().event_data_eq(&expected));
}

fn full(tag: LuaTag) -> LuaFields {
    LuaFields {
        namespace: Some("example_namespace".to_string()),
        timestamp: Timestamp::parse_rfc3339("2018-11-14T08:09:10Z"),
        tags: Some(vec![("example tag".to_string(), tag)]),
        kind: Some(MetricKind::Incremental),
        counter: Some(bits(1.0)),
        ..fields("example counter")
    }
}

fn expected(tag: AnyValue) -> OtelMetric {
    OtelMetric::new_counter("example counter".to_string(), MetricKind::Incremental, bits(1.0))
        .with_namespace(Some("example_namespace"))
        .with_tags(Some(attributes("example tag", tag)))
        .with_timestamp(Timestamp::parse_rfc3339("2018-11-14T08:09:10Z"))
}

#[test]
fn from_lua_counter_full() {
    let value = full(LuaTag::Text("example value".to_string()));
    let expected = expected(string_value("example value"));
    assert!(value.into_metric(sum).unwrap().event_data_eq(&expected));
}

#[test]
fn set_multi_valued_tags() {
    let value = full(LuaTag::List(vec!["a".to_string(), "b".to_string()]));
    let expected = expected(list(&["a", "b"]));
    assert!(value.into_metric(sum).unwrap().event_data_eq(&expected));
}

#[test]
fn from_lua_gauge() {
    let value = LuaFields { gauge: Some(bits(1.6180339)), ..fields("example gauge") };
    let expected = OtelMetric::new_gauge("example gauge".to_string(), bits(1.618_033_9));
    assert!(value.into_metric(sum).unwrap().event_data_eq(&expected));
}

#[test]
fn from_lua_set() {
    let values = vec!["value".to_string(), "another value".to_string()];
    let value = LuaFields { set: Some(values.clone()), ..fields("example set") };
    let expected = OtelMetric::new_set_from_values(
        "example set".to_string(),
        MetricKind::Absolute,
        &values,
    );
    assert!(value.into_metric(sum).unwrap().event_data_eq(&expected));
}

#[test]
fn from_lua_distribution() {
    let value = LuaFields {
        distribution: Some((all_bits(&[1.0, 1.0]), vec![10, 20])),
        ..fields("example distribution")
    };
    let expected = OtelMetric::new_histogram_from_samples(
        "example distribution".to_string(),
        MetricKind::Absolute,
        &vec![Sample { value: bits(1.0), rate: 10 }, Sample { value: bits(1.0), rate: 20 }],
        sum,
    );
    assert!(value.into_metric(sum).unwrap().event_data_eq(&expected));
}

#[test]
fn from_lua_aggregated_histogram() {
    let value = LuaFields {
        aggregated_histogram: Some((
            all_bits(&[1.0, 2.0, 4.0, 8.0]),
            vec![20, 10, 45, 12],
            bits(975.2),
        )),
        ..fields("example histogram")
    };
    let expected = OtelMetric::new_histogram(
        "example histogram".to_string(),
        MetricKind::Absolute,
        &buckets(),
        87,
        bits(975.2),
    );
    assert!(value.into_metric(sum).unwrap().event_data_eq(&expected));
}

#[test]
fn from_lua_aggregated_summary() {
    let value = LuaFields {
        aggregated_summary: Some((
            all_bits(&[0.1, 0.25, 0.5, 0.75, 0.9, 0.99, 1.0]),
            all_bits(&[2.0, 3.0, 5.0, 8.0, 7.0, 9.0, 10.0]),
            197,
            bits(975.2),
        )),
        ..fields("example summary")
    };
    let expected =
        OtelMetric::new_summary("example summary".to_string(), &quantiles(), 197, bits(975.2));
    assert!(value.into_metric(sum).unwrap().event_data_eq(&expected));
}

#[test]
fn a_table_without_a_value_is_refused() {
    assert_eq!(fields("nothing").into_metric(sum).unwrap_err(), LuaMetricError::NoValue);
    assert_eq!(kind_from_lua(Some("other")).unwrap_err(), LuaMetricError::Kind);
    assert_eq!(kind_from_lua(None).unwrap_err(), LuaMetricError::Kind);
    assert_eq!(kind_from_lua(Some("incremental")).unwrap(), MetricKind::Incremental);
    assert!(!LuaMetricError::NotATable.text().is_empty());
    assert!(!LuaMetricError::NoTags.text().is_empty());
}
