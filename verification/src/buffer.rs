//! How records of a disk buffer are marked, and by which encoding they are written and read.
use vstd::prelude::*;
use vstd::std_specs::convert::FromSpecImpl;

use crate::array::EventArray;

verus! {

/// Why events could not be encoded.
#[derive(Clone, Copy, Debug, PartialEq, Eq, Structural)]
pub enum EncodeError {
    BufferTooSmall,
}

impl EncodeError {
    pub fn text(&self) -> (r: &'static str)
        ensures
            r@ == "the provided buffer was too small to fully encode this item"@,
    {
        "the provided buffer was too small to fully encode this item"
    }
}

/// Why events could not be decoded.
#[derive(Clone, Copy, Debug, PartialEq, Eq, Structural)]
pub enum DecodeError {
    InvalidProtobufPayload,
    UnsupportedEncodingMetadata,
}

impl DecodeError {
    pub fn text(&self) -> (r: &'static str)
        ensures
            r@ == match self {
                DecodeError::InvalidProtobufPayload =>
                    "the provided buffer could not be decoded as a valid Protocol Buffers payload"@,
                DecodeError::UnsupportedEncodingMetadata =>
                    "unsupported encoding metadata for this context"@,
            },
    {
        match self {
            DecodeError::InvalidProtobufPayload =>
                "the provided buffer could not be decoded as a valid Protocol Buffers payload",
            DecodeError::UnsupportedEncodingMetadata =>
                "unsupported encoding metadata for this context",
        }
    }
}

/// Controls the on-disk encoding format for new records written to disk buffers.
#[derive(Copy, Clone, Debug, PartialEq, Eq, Structural)]
pub enum BufferFormat {
    /// Legacy Vector protobuf encoding. Default.
    Vector,
    /// OTel protobuf encoding. Use after migration is complete.
    Otlp,
    /// Transition mode: writes OTel records, reads both Vector and OTel records.
    Migrate,
}

impl Default for BufferFormat {
    fn default() -> (r: Self)
        ensures
            r == BufferFormat::Vector,
    {
        BufferFormat::Vector
    }
}

/// Flags for describing the encoding scheme used by our primary event types that flow through buffers.
///
/// This enumeration should never have any flags removed, only added.  This ensures that previously
/// used flags cannot have their meaning changed/repurposed after-the-fact.
#[derive(Copy, Clone, Debug, PartialEq, Eq, Structural)]
pub enum EventEncodableMetadataFlags {
    /// Chained encoding scheme that first tries to decode as an array of events and then as a single
    /// event. All encoding uses the array, however.
    DiskBufferV1CompatibilityMode,
    /// Record payload is encoded as OTel protobuf rather than the Vector-native one.
    OtlpEncoding,
}

/// The flags that a record carries.
#[derive(Clone, Copy, Debug, PartialEq, Eq, Structural)]
pub struct EventEncodableMetadata {
    pub v1_compatible: bool,
    pub otlp_encoding: bool,
}

/// That a number has bits that no flag stands for.
#[derive(Clone, Copy, Debug, PartialEq, Eq, Structural)]
pub struct FromBitsError {
    /// The flags that it has.
    pub truncated: EventEncodableMetadata,
    /// The bits that no flag stands for.
    pub invalid_bits: u32,
}

impl EventEncodableMetadata {
    /// The flags as a number: the first is its lowest bit.
    pub open spec fn bits(&self) -> u32 {
        match (self.v1_compatible, self.otlp_encoding) {
            (false, false) => 0,
            (true, false) => 1,
            (false, true) => 2,
            (true, true) => 3,
        }
    }

    /// Whether a flag is among these.
    pub open spec fn has(&self, flag: EventEncodableMetadataFlags) -> bool {
        match flag {
            EventEncodableMetadataFlags::DiskBufferV1CompatibilityMode => self.v1_compatible,
            EventEncodableMetadataFlags::OtlpEncoding => self.otlp_encoding,
        }
    }

    /// Whether a flag is among these.
    pub fn contains(self, flag: EventEncodableMetadataFlags) -> (r: bool)
        ensures
            r == self.has(flag),
    {
        match flag {
            EventEncodableMetadataFlags::DiskBufferV1CompatibilityMode => self.v1_compatible,
            EventEncodableMetadataFlags::OtlpEncoding => self.otlp_encoding,
        }
    }

    /// The flags that the two lowest bits of a number stand for.
    pub open spec fn of_bits(bits: u32) -> EventEncodableMetadata {
        EventEncodableMetadata { v1_compatible: bits % 2 == 1, otlp_encoding: bits / 2 % 2 == 1 }
    }

    /// The flags that the bits of a number stand for. No other bit may be set.
    pub fn try_from_bits(value: u32) -> (r: Result<Self, FromBitsError>)
        ensures
            match r {
                Ok(m) => value == m.bits(),
                Err(e) => value > 3 && e.truncated == EventEncodableMetadata::of_bits(value)
                    && e.invalid_bits == value - value % 4,
            },
    {
        let flags = EventEncodableMetadata {
            v1_compatible: value % 2 == 1,
            otlp_encoding: value / 2 % 2 == 1,
        };
        if value <= 3 {
            Ok(flags)
        } else {
            Err(FromBitsError { truncated: flags, invalid_bits: value - value % 4 })
        }
    }

    /// The flags as a number.
    pub fn into_u32(self) -> (r: u32)
        ensures
            r == self.bits(),
    {
        match (self.v1_compatible, self.otlp_encoding) {
            (false, false) => 0,
            (true, false) => 1,
            (false, true) => 2,
            (true, true) => 3,
        }
    }

    /// The flags that the bits of a number stand for, where no other bit is set.
    pub fn from_u32(value: u32) -> (r: Option<Self>)
        ensures
            match r {
                Some(m) => value == m.bits(),
                None => value > 3,
            },
    {
        match EventEncodableMetadata::try_from_bits(value) {
            Ok(m) => Some(m),
            Err(_) => None,
        }
    }
}

impl From<EventEncodableMetadataFlags> for EventEncodableMetadata {
    fn from(flag: EventEncodableMetadataFlags) -> (r: Self) {
        match flag {
            EventEncodableMetadataFlags::DiskBufferV1CompatibilityMode => EventEncodableMetadata {
                v1_compatible: true,
                otlp_encoding: false,
            },
            EventEncodableMetadataFlags::OtlpEncoding => EventEncodableMetadata {
                v1_compatible: false,
                otlp_encoding: true,
            },
        }
    }
}

impl FromSpecImpl<EventEncodableMetadataFlags> for EventEncodableMetadata {
    open spec fn obeys_from_spec() -> bool {
        true
    }

    open spec fn from_spec(flag: EventEncodableMetadataFlags) -> Self {
        EventEncodableMetadata {
            v1_compatible: flag == EventEncodableMetadataFlags::DiskBufferV1CompatibilityMode,
            otlp_encoding: flag == EventEncodableMetadataFlags::OtlpEncoding,
        }
    }
}

/// The encodings of a record.
#[derive(Clone, Copy, Debug, PartialEq, Eq, Structural)]
pub enum Payload {
    /// The Vector-native one.
    Vector,
    /// OTel protobuf.
    Otlp,
}

impl BufferFormat {
    /// Whether new records are written as OTel protobuf.
    pub open spec fn writes_otlp(&self) -> bool {
        self != BufferFormat::Vector
    }

    /// Whether records with these flags can be read.
    pub open spec fn reads(&self, metadata: EventEncodableMetadata) -> bool {
        match self {
            BufferFormat::Vector => metadata.v1_compatible && !metadata.otlp_encoding,
            BufferFormat::Otlp => metadata.otlp_encoding,
            BufferFormat::Migrate => metadata.v1_compatible || metadata.otlp_encoding,
        }
    }

    /// The flags of new records.
    pub fn get_metadata(self) -> (r: EventEncodableMetadata)
        ensures
            r == (EventEncodableMetadata {
                v1_compatible: true,
                otlp_encoding: self.writes_otlp(),
            }),
    {
        match self {
            BufferFormat::Vector => EventEncodableMetadata {
                v1_compatible: true,
                otlp_encoding: false,
            },
            BufferFormat::Otlp | BufferFormat::Migrate => EventEncodableMetadata {
                v1_compatible: true,
                otlp_encoding: true,
            },
        }
    }

    /// Whether records with these flags can be read.
    pub fn can_decode(self, metadata: EventEncodableMetadata) -> (r: bool)
        ensures
            r == self.reads(metadata),
    {
        match self {
            BufferFormat::Vector => metadata.contains(
                EventEncodableMetadataFlags::DiskBufferV1CompatibilityMode,
            ) && !metadata.contains(EventEncodableMetadataFlags::OtlpEncoding),
            BufferFormat::Otlp => metadata.contains(EventEncodableMetadataFlags::OtlpEncoding),
            BufferFormat::Migrate => metadata.contains(
                EventEncodableMetadataFlags::DiskBufferV1CompatibilityMode,
            ) || metadata.contains(EventEncodableMetadataFlags::OtlpEncoding),
        }
    }

    /// The encoding of new records.
    pub fn encoding(self) -> (r: Payload)
        ensures
            r == if self.writes_otlp() {
                Payload::Otlp
            } else {
                Payload::Vector
            },
    {
        match self {
            BufferFormat::Vector => Payload::Vector,
            BufferFormat::Otlp | BufferFormat::Migrate => Payload::Otlp,
        }
    }
}

/// The encoding of a record with these flags; none where they name none.
pub open spec fn payload_of(metadata: EventEncodableMetadata) -> Option<Payload> {
    if metadata.otlp_encoding {
        Some(Payload::Otlp)
    } else if metadata.v1_compatible {
        Some(Payload::Vector)
    } else {
        None
    }
}

/// The encoding by which a record with these flags is decoded.
pub fn decoding(metadata: EventEncodableMetadata) -> (r: Result<Payload, DecodeError>)
    ensures
        match r {
            Ok(p) => payload_of(metadata) == Some(p),
            Err(e) => payload_of(metadata) is None && e == DecodeError::UnsupportedEncodingMetadata,
        },
{
    if metadata.contains(EventEncodableMetadataFlags::OtlpEncoding) {
        Ok(Payload::Otlp)
    } else if metadata.contains(EventEncodableMetadataFlags::DiskBufferV1CompatibilityMode) {
        Ok(Payload::Vector)
    } else {
        Err(DecodeError::UnsupportedEncodingMetadata)
    }
}

/// The events of a record in the Vector-native encoding: it is read as an array of events, or where
/// it is none as a single one, which `single` reads.
pub fn decode_chain<F: FnOnce() -> Option<EventArray>>(array: Option<EventArray>, single: F) -> (r:
    Result<EventArray, DecodeError>)
    requires
        call_requires(single, ()),
    ensures
        match array {
            Some(a) => r == Ok::<EventArray, DecodeError>(a),
            None => exists|s: Option<EventArray>| #[trigger]
                call_ensures(single, (), s) && r == match s {
                    Some(a) => Ok::<EventArray, DecodeError>(a),
                    None => Err::<EventArray, DecodeError>(DecodeError::InvalidProtobufPayload),
                },
        },
{
    match array {
        Some(a) => Ok(a),
        None => match single() {
            Some(a) => Ok(a),
            None => Err(DecodeError::InvalidProtobufPayload),
        },
    }
}

/// What encodes arrays of events as OTLP, and decodes them.
pub trait OtlpCodec {
    /// Encode `array`, appending bytes to `buf`.
    fn encode(&self, array: &EventArray, buf: &mut Vec<u8>) -> Result<(), String>;

    /// Decode `buf` into an array of events.
    fn decode(&self, buf: Vec<u8>) -> Result<EventArray, String>;
}

/// Writes what a codec gave to the end of a buffer that has room for so many bytes.
pub fn write_encoded(encoded: Result<Vec<u8>, String>, buf: &mut Vec<u8>, room: usize) -> (r: Result<
    (),
    String,
>)
    ensures
        match encoded {
            Ok(bytes) => if bytes@.len() <= room {
                r is Ok && final(buf)@ == old(buf)@ + bytes@
            } else {
                r is Err && r->Err_0@ == "buffer too small"@ && final(buf)@ == old(buf)@
            },
            Err(e) => r == Err::<(), String>(e) && final(buf)@ == old(buf)@,
        },
{
    match encoded {
        Ok(bytes) => {
            if room < bytes.len() {
                return Err("buffer too small".to_owned());
            }
            let mut bytes = bytes;
            buf.append(&mut bytes);
            Ok(())
        },
        Err(e) => Err(e),
    }
}

/// Whether a buffer that has room for so many bytes was written as the outcome of encoding asks for:
/// the encoded bytes stand at its end where there is room for them; otherwise the buffer is as it
/// was, and the result says that it is too small, or what the codec said.
pub open spec fn is_written(
    outcome: Result<(), String>,
    bytes: Seq<u8>,
    before: Seq<u8>,
    after: Seq<u8>,
    room: usize,
    r: Result<(), String>,
) -> bool {
    match outcome {
        Ok(()) => if bytes.len() <= room {
            r is Ok && after == before + bytes
        } else {
            r is Err && r->Err_0@ == "buffer too small"@ && after == before
        },
        Err(e) => r == Err::<(), String>(e) && after == before,
    }
}

/// Encode `array` using a codec, writing into a buffer that has room for so many bytes: the codec
/// encodes into an empty vector, and what it gives is written. Whatever the codec does, what stood
/// in the buffer stays, and no more bytes come than there is room for.
pub fn encode_as_otlp<C: OtlpCodec>(codec: &C, array: &EventArray, buf: &mut Vec<u8>, room: usize) -> (r:
    Result<(), String>)
    ensures
        exists|tmp: &mut Vec<u8>, outcome: Result<(), String>|
            {
                &&& #[trigger] call_ensures(C::encode, (codec, array, tmp), outcome)
                &&& tmp@.len() == 0
                &&& is_written(outcome, final(tmp)@, old(buf)@, final(buf)@, room, r)
            },
        old(buf)@.is_prefix_of(final(buf)@),
        final(buf)@.len() <= old(buf)@.len() + room,
        r is Err ==> final(buf)@ == old(buf)@,
{
    let mut tmp: Vec<u8> = Vec::new();
    let encoded = match codec.encode(array, &mut tmp) {
        Ok(()) => Ok(tmp),
        Err(e) => Err(e),
    };
    write_encoded(encoded, buf, room)
}

/// A buffer can read every record that it writes.
pub proof fn law_records_can_be_read(format: BufferFormat, metadata: EventEncodableMetadata)
    requires
        metadata == (EventEncodableMetadata {
            v1_compatible: true,
            otlp_encoding: format.writes_otlp(),
        }),
    ensures
        format.reads(metadata),
        payload_of(metadata) == Some(
            if format.writes_otlp() {
                Payload::Otlp
            } else {
                Payload::Vector
            },
        ),
{
}

/// In the transition mode every record can be read that a buffer in any other mode can read.
pub proof fn law_transition_reads_all(format: BufferFormat, metadata: EventEncodableMetadata)
    ensures
        format.reads(metadata) ==> BufferFormat::Migrate.reads(metadata),
{
}

/// What can be read has a known encoding.
pub proof fn law_readable_is_known(format: BufferFormat, metadata: EventEncodableMetadata)
    ensures
        format.reads(metadata) ==> payload_of(metadata) is Some,
{
}

/// The number of flags tells them apart.
pub proof fn law_flags_round_trip(a: EventEncodableMetadata)
    ensures
        EventEncodableMetadata::of_bits(a.bits()) == a,
        a.bits() <= 3,
{
}

/// The first flag is the lowest bit of the number of flags, the second the one above it, and no other bit
/// is set.
pub proof fn law_flags_are_bits(a: EventEncodableMetadata)
    ensures
        a.bits() % 2 == 1 <==> a.v1_compatible,
        (a.bits() / 2) % 2 == 1 <==> a.otlp_encoding,
        a.bits() < 4,
        a.has(EventEncodableMetadataFlags::DiskBufferV1CompatibilityMode) <==> a.v1_compatible,
        a.has(EventEncodableMetadataFlags::OtlpEncoding) <==> a.otlp_encoding,
{
}

/// New records are written in the Vector-native encoding in that mode only. In it no record in OTel protobuf
/// is read, in the mode for OTel protobuf no other one, and in the transition mode both are.
pub proof fn law_modes_differ(metadata: EventEncodableMetadata)
    ensures
        !BufferFormat::Vector.writes_otlp(),
        BufferFormat::Otlp.writes_otlp(),
        BufferFormat::Migrate.writes_otlp(),
        BufferFormat::Vector.reads(metadata) ==> payload_of(metadata) == Some(Payload::Vector),
        BufferFormat::Otlp.reads(metadata) <==> payload_of(metadata) == Some(Payload::Otlp),
        BufferFormat::Migrate.reads(metadata) <==> payload_of(metadata) is Some,
        metadata.v1_compatible && !metadata.otlp_encoding ==> BufferFormat::Vector.reads(metadata),
        metadata.otlp_encoding ==> payload_of(metadata) == Some(Payload::Otlp),
        !metadata.otlp_encoding && !metadata.v1_compatible ==> payload_of(metadata) is None,
{
}

} // verus!
