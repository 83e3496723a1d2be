use vector_core::array::{EventArray, EventContainer};
use vector_core::array_buffer::events_into_arrays;
use vector_core::buffer::{
    decode_chain, decoding, encode_as_otlp, BufferFormat, DecodeError, EncodeError,
    EventEncodableMetadata, EventEncodableMetadataFlags, OtlpCodec, Payload,
};
use vector_core::event::Event;
use vector_core::log::OtelLog;
use vector_core::metric::OtelMetric;
use vector_core::otlp_span::Span;
use vector_core::span::OtelSpan;

#[test]
fn buffer_format_vector_get_metadata_has_only_v1_flag() {
    let metadata = BufferFormat::Vector.get_metadata();
    assert!(
        metadata.contains(EventEncodableMetadataFlags::DiskBufferV1CompatibilityMode),
        "Vector mode must set DiskBufferV1CompatibilityMode"
    );
    assert!(
        !metadata.contains(EventEncodableMetadataFlags::OtlpEncoding),
        "Vector mode must not set OtlpEncoding"
    );
}

#[test]
fn buffer_format_otlp_get_metadata_has_otlp_flag() {
    let metadata = BufferFormat::Otlp.get_metadata();
    assert!(
        metadata.contains(EventEncodableMetadataFlags::OtlpEncoding),
        "Otlp mode must set OtlpEncoding"
    );
}

#[test]
fn buffer_format_migrate_get_metadata_has_otlp_flag() {
    let metadata = BufferFormat::Migrate.get_metadata();
    assert!(
        metadata.contains(EventEncodableMetadataFlags::OtlpEncoding),
        "Migrate mode writes OTel records"
    );
}

#[test]
fn buffer_format_vector_can_decode_only_v1_records() {
    let format = BufferFormat::Vector;
    let v1_meta: EventEncodableMetadata =
        EventEncodableMetadataFlags::DiskBufferV1CompatibilityMode.into();
    let otlp_meta: EventEncodableMetadata = EventEncodableMetadataFlags::OtlpEncoding.into();

    assert!(format.can_decode(v1_meta), "Vector mode must accept V1 records");
    assert!(!format.can_decode(otlp_meta), "Vector mode must reject OTel records");
}

#[test]
fn buffer_format_otlp_can_decode_only_otlp_records() {
    let format = BufferFormat::Otlp;
    let v1_meta: EventEncodableMetadata =
        EventEncodableMetadataFlags::DiskBufferV1CompatibilityMode.into();
    let otlp_meta: EventEncodableMetadata = EventEncodableMetadataFlags::OtlpEncoding.into();

    assert!(!format.can_decode(v1_meta), "Otlp mode must reject V1 records");
    assert!(format.can_decode(otlp_meta), "Otlp mode must accept OTel records");
}

#[test]
fn buffer_format_migrate_can_decode_both_formats() {
    let format = BufferFormat::Migrate;
    let v1_meta: EventEncodableMetadata =
        EventEncodableMetadataFlags::DiskBufferV1CompatibilityMode.into();
    let otlp_meta: EventEncodableMetadata = EventEncodableMetadataFlags::OtlpEncoding.into();

    assert!(format.can_decode(v1_meta), "Migrate mode must accept V1 records");
    assert!(format.can_decode(otlp_meta), "Migrate mode must accept OTel records");
}

#[test]
fn written_records_are_read_as_they_were_written() {
    for format in [BufferFormat::Vector, BufferFormat::Otlp, BufferFormat::Migrate] {
        let metadata = format.get_metadata();
        assert!(format.can_decode(metadata));
        assert_eq!(decoding(metadata), Ok(format.encoding()));
    }
    assert_eq!(BufferFormat::default(), BufferFormat::Vector);
    assert_eq!(BufferFormat::Migrate.encoding(), Payload::Otlp);
}

#[test]
fn unflagged_records_are_refused() {
    let none = EventEncodableMetadata { v1_compatible: false, otlp_encoding: false };
    assert_eq!(decoding(none), Err(DecodeError::UnsupportedEncodingMetadata));
}

#[test]
fn flags_are_kept_by_their_bits() {
    let both = EventEncodableMetadata { v1_compatible: true, otlp_encoding: true };
    assert_eq!(both.into_u32(), 3);
    assert_eq!(EventEncodableMetadata::from_u32(3), Some(both));
    assert_eq!(EventEncodableMetadata::from_u32(4), None);
    let error = EventEncodableMetadata::try_from_bits(6).unwrap_err();
    assert_eq!(error.invalid_bits, 4);
    assert!(error.truncated.otlp_encoding);
    assert!(!error.truncated.v1_compatible);
}

#[test]
fn errors_say_what_went_wrong() {
    assert_eq!(EncodeError::BufferTooSmall.text(), "the provided buffer was too small to fully encode this item");
    assert_eq!(
        DecodeError::InvalidProtobufPayload.text(),
        "the provided buffer could not be decoded as a valid Protocol Buffers payload"
    );
    assert_eq!(DecodeError::UnsupportedEncodingMetadata.text(), "unsupported encoding metadata for this context");
}

fn gauge(name: &str) -> Event {
    Event::Metric(OtelMetric::new_gauge(name.to_string(), 1.0f64.to_bits()))
}

#[test]
fn events_are_gathered_by_type() {
    let events = vec![
        Event::Log(OtelLog::from("a")),
        Event::Log(OtelLog::from("b")),
        gauge("g"),
        Event::Trace(OtelSpan::new(Span::default())),
        Event::Log(OtelLog::from("c")),
    ];
    let arrays = events_into_arrays(events, None);
    assert_eq!(arrays.len(), 4);
    assert!(arrays[0].is_otel_logs());
    assert_eq!(arrays[0].event_count(), 2);
    assert!(arrays[1].is_otel_metrics());
    assert!(arrays[2].is_otel_spans());
    assert!(arrays[3].is_otel_logs());
}

#[test]
fn arrays_hold_no_more_than_asked() {
    let events = vec![
        Event::Log(OtelLog::from("a")),
        Event::Log(OtelLog::from("b")),
        Event::Log(OtelLog::from("c")),
    ];
    let arrays = events_into_arrays(events, Some(2));
    assert_eq!(arrays.len(), 2);
    assert_eq!(arrays[0].event_count(), 2);
    assert_eq!(arrays[1].event_count(), 1);
    let mut bodies = vec![];
    for array in arrays {
        for event in array.into_events() {
            bodies.push(event.as_log().body_string(""));
        }
    }
    assert_eq!(bodies, vec!["a", "b", "c"]);
}

#[test]
fn single_events_are_tried_last() {
    let logs = || Some(EventArray::from(OtelLog::from("a")));
    assert!(decode_chain(logs(), || None).is_ok());
    assert!(decode_chain(None, logs).is_ok());
    assert_eq!(decode_chain(None, || None), Err(DecodeError::InvalidProtobufPayload));
}

struct Fixed {
    bytes: Option<Vec<u8>>,
}

impl OtlpCodec for Fixed {
    fn encode(&self, _array: &EventArray, buf: &mut Vec<u8>) -> Result<(), String> {
        match &self.bytes {
            Some(bytes) => {
                buf.extend_from_slice(bytes);
                Ok(())
            }
            None => Err("no bytes".to_string()),
        }
    }

    fn decode(&self, buf: Vec<u8>) -> Result<EventArray, String> {
        Err(format!("{} bytes", buf.len()))
    }
}

#[test]
fn encoded_bytes_are_appended_where_there_is_room() {
    let array = EventArray::from(OtelLog::from("a"));
    let codec = Fixed { bytes: Some(vec![1, 2, 3]) };
    let mut buf = vec![0];
    assert_eq!(encode_as_otlp(&codec, &array, &mut buf, 3), Ok(()));
    assert_eq!(buf, vec![0, 1, 2, 3]);
    assert_eq!(
        encode_as_otlp(&codec, &array, &mut buf, 2),
        Err("buffer too small".to_string())
    );
    assert_eq!(buf, vec![0, 1, 2, 3]);
    let codec = Fixed { bytes: None };
    assert_eq!(encode_as_otlp(&codec, &array, &mut buf, 9), Err("no bytes".to_string()));
}
