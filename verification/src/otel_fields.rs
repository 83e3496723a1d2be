//! The names of the fields of logs, spans and metrics.
use vstd::prelude::*;

verus! {

// Canonical field names for OTel log records.
pub const BODY: &'static str = "body";
pub const TIME_UNIX_NANO: &'static str = "time_unix_nano";
pub const OBSERVED_TIME_UNIX_NANO: &'static str = "observed_time_unix_nano";
pub const SEVERITY_TEXT: &'static str = "severity_text";
pub const SEVERITY_NUMBER: &'static str = "severity_number";
pub const LOG_TRACE_ID: &'static str = "trace_id";
pub const LOG_SPAN_ID: &'static str = "span_id";
pub const LOG_FLAGS: &'static str = "flags";

// Canonical field names for OTel spans.
pub const START_TIME_UNIX_NANO: &'static str = "start_time_unix_nano";
pub const END_TIME_UNIX_NANO: &'static str = "end_time_unix_nano";
pub const PARENT_SPAN_ID: &'static str = "parent_span_id";
pub const SPAN_TRACE_ID: &'static str = "trace_id";
pub const SPAN_SPAN_ID: &'static str = "span_id";
pub const SPAN_STATUS: &'static str = "status";
pub const SPAN_KIND: &'static str = "kind";
pub const SPAN_EVENTS: &'static str = "events";
pub const SPAN_LINKS: &'static str = "links";
pub const SPAN_FLAGS: &'static str = "flags";

// Common OTel structure fields.
pub const ATTRIBUTES: &'static str = "attributes";
pub const DROPPED_ATTRIBUTES_COUNT: &'static str = "dropped_attributes_count";
pub const RESOURCE: &'static str = "resource";
pub const SCOPE: &'static str = "scope";
pub const NAME: &'static str = "name";
pub const VERSION: &'static str = "version";

// Span status sub-fields.
pub const STATUS_CODE: &'static str = "code";
pub const STATUS_MESSAGE: &'static str = "message";

// Metric-specific field names.
pub const DESCRIPTION: &'static str = "description";
pub const UNIT: &'static str = "unit";
pub const METRIC_NAMESPACE: &'static str = "metric.namespace";

// Metric data type names (used in MetricView::as_name and to_log_body).
pub const METRIC_TYPE_SUM: &'static str = "sum";
pub const METRIC_TYPE_GAUGE: &'static str = "gauge";
pub const METRIC_TYPE_HISTOGRAM: &'static str = "histogram";
pub const METRIC_TYPE_SUMMARY: &'static str = "summary";
pub const METRIC_TYPE_EXPONENTIAL_HISTOGRAM: &'static str = "exponential_histogram";
pub const METRIC_TYPE_COUNTER: &'static str = "counter";
pub const METRIC_TYPE_SET: &'static str = "set";

// Metric kind strings.
pub const METRIC_KIND_INCREMENTAL: &'static str = "incremental";
pub const METRIC_KIND_ABSOLUTE: &'static str = "absolute";

// Metric proto field names (camelCase as used in OTLP JSON).
pub const DATA_POINTS: &'static str = "dataPoints";
pub const AGGREGATION_TEMPORALITY: &'static str = "aggregationTemporality";
pub const IS_MONOTONIC: &'static str = "isMonotonic";
pub const BUCKET_COUNTS: &'static str = "bucketCounts";
pub const EXPLICIT_BOUNDS: &'static str = "explicitBounds";
pub const COUNT: &'static str = "count";
pub const SCALE: &'static str = "scale";
pub const ZERO_COUNT: &'static str = "zeroCount";
pub const QUANTILE: &'static str = "quantile";
pub const QUANTILE_VALUES: &'static str = "quantileValues";
pub const AS_DOUBLE: &'static str = "asDouble";
pub const AS_INT: &'static str = "asInt";
pub const POSITIVE: &'static str = "positive";
pub const NEGATIVE: &'static str = "negative";
pub const OFFSET: &'static str = "offset";

// Common field used in KV structures and data point fields.
pub const KEY: &'static str = "key";
pub const VALUE: &'static str = "value";
pub const VALUES: &'static str = "values";

// OTel span time aliases (used for get/insert/remove shortcuts).
pub const START_TIME: &'static str = "start_time";
pub const END_TIME: &'static str = "end_time";

// OTLP JSON camelCase field names (serialization format).
pub const TIME_UNIX_NANO_CC: &'static str = "timeUnixNano";
pub const OBSERVED_TIME_UNIX_NANO_CC: &'static str = "observedTimeUnixNano";
pub const SEVERITY_TEXT_CC: &'static str = "severityText";
pub const SEVERITY_NUMBER_CC: &'static str = "severityNumber";
pub const TRACE_ID_CC: &'static str = "traceId";
pub const SPAN_ID_CC: &'static str = "spanId";
pub const PARENT_SPAN_ID_CC: &'static str = "parentSpanId";
pub const START_TIME_UNIX_NANO_CC: &'static str = "startTimeUnixNano";
pub const END_TIME_UNIX_NANO_CC: &'static str = "endTimeUnixNano";
pub const EXPONENTIAL_HISTOGRAM_CC: &'static str = "exponentialHistogram";

// OTLP JSON AnyValue type wrappers.
pub const STRING_VALUE: &'static str = "stringValue";
pub const INT_VALUE: &'static str = "intValue";
pub const DOUBLE_VALUE: &'static str = "doubleValue";
pub const BOOL_VALUE: &'static str = "boolValue";
pub const BYTES_VALUE: &'static str = "bytesValue";
pub const ARRAY_VALUE: &'static str = "arrayValue";
pub const KVLIST_VALUE: &'static str = "kvlistValue";

// Resource attribute keys.
pub const SOURCE_TYPE: &'static str = "source_type";
pub const SERVICE_NAME: &'static str = "service.name";
pub const HOST_NAME: &'static str = "host.name";

// Tracing metadata field names.
pub const METADATA: &'static str = "metadata";
pub const LEVEL: &'static str = "level";
pub const MODULE_PATH: &'static str = "module_path";
pub const TARGET: &'static str = "target";
pub const EVENT: &'static str = "event";
pub const INGEST_TIMESTAMP: &'static str = "ingest_timestamp";

} // verus!
