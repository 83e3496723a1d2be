//! The data model of telemetry events: logs, spans and metrics in the shape of the
//! OpenTelemetry protocol, and the rules by which they are read and changed.

pub mod any_value;
pub mod array;
pub mod array_buffer;
pub mod attributes;
pub mod buffer;
pub mod call_laws;
pub mod canonical;
pub mod canonical_laws;
pub mod config;
pub mod double;
pub mod double_laws;
pub mod equality;
pub mod equality_laws;
pub mod event;
pub mod event_laws;
pub mod event_tags;
pub mod extract;
pub mod field_laws;
pub mod fields;
pub mod hex;
pub mod item_laws;
pub mod json;
pub mod json_fields;
pub mod json_laws;
pub mod json_read_laws;
pub mod keyed;
pub mod listed_laws;
pub mod log;
pub mod log_laws;
pub mod log_merge;
pub mod log_ops;
pub mod log_path;
pub mod log_path_laws;
pub mod log_place_laws;
pub mod log_value;
pub mod log_value_laws;
pub mod lua_laws;
pub mod lua_table;
pub mod map_laws;
pub mod metadata;
pub mod metric;
pub mod metric_body;
pub mod metric_body_laws;
pub mod metric_convert;
pub mod metric_convert_laws;
pub mod metric_data;
pub mod metric_extra;
pub mod metric_kind;
pub mod metric_laws;
pub mod metric_made_laws;
pub mod metric_math;
pub mod metric_math_laws;
pub mod metric_new;
pub mod metric_ops;
pub mod metric_read;
pub mod metric_read_laws;
pub mod metric_tags;
pub mod metric_text;
pub mod metric_value_laws;
pub mod order_laws;
pub mod otel_fields;
pub mod otel_metric;
pub mod otel_metric_ops;
pub mod otlp;
pub mod otlp_json;
pub mod otlp_metric;
pub mod otlp_output;
pub mod otlp_span;
pub mod parts_laws;
pub mod path;
pub mod path_laws;
pub mod path_text;
pub mod place_laws;
pub mod points;
pub mod prune_laws;
pub mod same_data;
pub mod sample_laws;
pub mod schema;
pub mod seen_laws;
pub mod seen_metric_laws;
pub mod series;
pub mod span;
pub mod span_laws;
pub mod span_path;
pub mod span_path_laws;
pub mod span_value;
pub mod tag_laws;
pub mod target;
pub mod target_laws;
pub mod target_metric;
pub mod target_set_laws;
pub mod target_span_laws;
pub mod target_value;
pub mod text;
pub mod time;
pub mod tracing_event;
pub mod value;
pub mod value_laws;
pub mod wire;
pub mod wire_array;
pub mod wire_event;
pub mod wire_field_laws;
pub mod wire_laws;
