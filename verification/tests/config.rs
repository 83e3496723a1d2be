use vector_core::config::{
    clone_input_definitions, get_source_metadata, get_vector_metadata, insert_source_metadata,
    insert_standard_vector_source_metadata, insert_vector_metadata, AcknowledgementsConfig,
    DataType, Input, MetadataInsertable, OutputDefinitions, Requirement, SourceAcknowledgementsConfig, SourceOutput,
    TransformOutput,
};
use vector_core::keyed::KeyedMap;
use vector_core::log::OtelLog;
use vector_core::metadata::OutputId;
use vector_core::path_text::{parse_target_path, two_field_path};
use vector_core::schema::Definition;
use vector_core::time::Timestamp;
use vector_core::value::Value;

#[test]
fn test_insert_standard_vector_source_metadata() {
    let mut event = OtelLog::from("log");
    let now = Timestamp::from_timestamp(1_700_000_000, 0).unwrap();
    insert_standard_vector_source_metadata(&mut event, "source", now);

    assert!(event.get_source_type().is_some());
}

#[test]
fn test_new_log_source_ignores_definition_with_metric_data_type() {
    let definition = Definition::any();
    let output = SourceOutput::new_maybe_logs(DataType::Metric, definition);
    assert_eq!(output.schema_definition(true), None);
}

#[test]
fn test_new_log_source_uses_definition_with_log_data_type() {
    let definition = Definition::any();
    let output = SourceOutput::new_maybe_logs(DataType::Log, definition.clone());
    assert_eq!(output.schema_definition(true), Some(definition));
}

#[test]
fn disabled_schemas_keep_only_meanings() {
    let mut definition = Definition::any();
    let mut meanings = KeyedMap::new();
    meanings.insert("zork".to_string(), parse_target_path("zork").unwrap());
    definition.add_meanings(&meanings);
    let output = SourceOutput::new_maybe_logs(DataType::Log, definition);
    let simple = output.schema_definition(false).unwrap();
    assert_eq!(simple.meaning_path("zork"), Some(&parse_target_path("zork").unwrap()));
    let mut wanted = Definition::default_definition();
    wanted.add_meanings(&meanings);
    assert_eq!(simple, wanted);
}

#[test]
fn data_types_are_united() {
    assert_eq!(DataType::Log.or(DataType::Metric), DataType::LogAndMetric);
    assert_eq!(DataType::LogAndMetric.or(DataType::Trace), DataType::all_bits());
    assert!(DataType::All.contains(DataType::LogAndTrace));
    assert!(!DataType::Metric.contains(DataType::Log));
    assert_eq!(DataType::All.bits(), 7);
    assert_eq!(DataType::All.text(), "[\"Log\", \"Metric\", \"Trace\"]");
}

#[test]
fn inputs_take_what_they_were_made_for() {
    assert_eq!(Input::log().data_type(), DataType::Log);
    assert_eq!(Input::metric().data_type(), DataType::Metric);
    assert_eq!(Input::trace().data_type(), DataType::Trace);
    assert_eq!(Input::all().data_type(), DataType::All);
    assert_eq!(Input::new(DataType::LogAndTrace).data_type(), DataType::LogAndTrace);
    assert_eq!(Input::log().schema_requirement(), &Requirement::empty());
    let input = Input::log().with_schema_requirement(Requirement::empty());
    assert_eq!(input.schema_requirement(), &Requirement::empty());
}

#[test]
fn outputs_have_ports() {
    let output = SourceOutput::new_metrics().with_port("errors".to_string());
    assert_eq!(output.port, Some("errors".to_string()));
    assert_eq!(output.ty, DataType::Metric);
    assert_eq!(SourceOutput::new_traces().ty, DataType::Trace);
}

fn output(component: &str) -> OutputId {
    OutputId { component: component.to_string(), port: None }
}

#[test]
fn transforms_keep_a_definition_for_each_output() {
    let inputs = vec![(output("a"), Definition::any()), (output("b"), Definition::any())];
    let definitions = clone_input_definitions(&inputs);
    assert_eq!(definitions.len(), 2);
    assert_eq!(definitions.get(&output("a")), Some(&Definition::any()));
    assert_eq!(definitions.get(&output("c")), None);
    let transform = TransformOutput::new(DataType::Log, definitions).with_port("p".to_string());
    assert_eq!(transform.port, Some("p".to_string()));
    assert_eq!(transform.schema_definitions(true).get(&output("b")), Some(&Definition::any()));
    assert_eq!(
        transform.schema_definitions(false).get(&output("b")),
        Some(&Definition::default_definition())
    );
}

#[test]
fn later_definitions_replace_earlier_ones() {
    let mut definitions = OutputDefinitions::new();
    definitions.insert(output("a"), Definition::any());
    definitions.insert(output("a"), Definition::default_definition());
    assert_eq!(definitions.len(), 1);
    assert_eq!(definitions.get(&output("a")), Some(&Definition::default_definition()));
}

#[test]
fn settings_fall_back_on_a_default() {
    let unset = AcknowledgementsConfig::from(None);
    let on = AcknowledgementsConfig::from(true);
    let off = AcknowledgementsConfig::from(Some(false));
    assert!(!unset.enabled());
    assert!(unset.merge_default(&on).enabled());
    assert!(!off.merge_default(&on).enabled());
    let source = SourceAcknowledgementsConfig::from(true);
    assert!(SourceAcknowledgementsConfig::from(None).merge_default(&source).enabled());
    assert!(AcknowledgementsConfig::from(source).enabled());
}

#[test]
fn metadata_is_read_as_it_was_written() {
    let mut log = OtelLog::from("log");
    let key = two_field_path("a", "b");
    insert_source_metadata("syslog", &mut log, &key, Value::Integer(1));
    insert_vector_metadata(&mut log, &key, Value::Integer(2));
    assert_eq!(get_source_metadata("syslog", &log, &key), Some(Value::Integer(1)));
    assert_eq!(get_source_metadata("other", &log, &key), None);
    assert_eq!(get_vector_metadata(&log, &key), Some(Value::Integer(2)));
}

fn insert_twice<T: MetadataInsertable>(event: &mut T, first: &str, second: &str) {
    let path = parse_target_path("a.b").unwrap().path;
    event.try_insert_by_path(&path, Value::from_text(first), "");
    event.try_insert_by_path(&path, Value::from_text(second), "");
    event.maybe_insert_by_path(None, Value::Null, "");
    event.set_host(Value::from_text(first));
    event.try_set_host(Value::from_text(second));
    event.event_metadata_mut().source_id = Some(first.to_string());
}

#[test]
fn events_take_what_sources_insert() {
    let mut log = OtelLog::from("log");
    insert_twice(&mut log, "one", "two");
    assert_eq!(log.get(&parse_target_path("a.b").unwrap()), Some(Value::from_text("one")));
    assert_eq!(log.get_host(), Some(Value::from_text("one")));
    assert_eq!(log.metadata().source_id, Some("one".to_string()));
    log.insert_by_path(&parse_target_path("a.b").unwrap().path, Value::Integer(2), "2");
    assert_eq!(log.get(&parse_target_path("a.b").unwrap()), Some(Value::Integer(2)));
}

#[test]
fn definitions_admit_what_they_should() {
    let any = Definition::any();
    assert!(any.event_kind.is_any());
    assert!(any.metadata_kind.is_any());
    let definition = Definition::default_definition();
    assert!(definition.event_kind.is_object());
    assert_eq!(definition.event_kind.as_object().map(|o| o.is_any()), Some(true));
    assert!(definition.metadata_kind.is_object());
}
