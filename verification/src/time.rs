//! Instants, and the nanosecond counts that events carry.
use vstd::prelude::*;

verus! {

/// Whether there is an instant at these seconds since the Unix epoch and nanoseconds within the
/// second: from the first day of the year 262144 BCE to the last of 262142 CE. A leap second counts
/// on within the last second of its minute.
pub open spec fn is_instant(secs: int, nanos: int) -> bool {
    &&& -8334601228800 <= secs <= 8210266876799
    &&& 0 <= nanos
    &&& nanos < 1_000_000_000 || (nanos < 2_000_000_000 && secs % 60 == 59)
}

/// The nanoseconds since the Unix epoch, where an `i64` holds them and the whole seconds nearer to
/// the epoch.
pub open spec fn nanos_since_epoch(secs: int, nanos: int) -> Option<i64> {
    let near = if secs < 0 {
        (secs + 1) * 1_000_000_000
    } else {
        secs * 1_000_000_000
    };
    let total = secs * 1_000_000_000 + nanos;
    if i64::MIN <= near <= i64::MAX && i64::MIN <= total <= i64::MAX {
        Some(total as i64)
    } else {
        None
    }
}

/// `chrono::DateTime::from_timestamp` makes an instant of seconds and nanoseconds exactly where
/// `is_instant` holds of them, and nothing elsewhere.
#[verifier::external_body]
fn has_date_time(secs: i64, nanos: u32) -> (r: bool)
    ensures
        r == is_instant(secs as int, nanos as int),
{
    chrono::DateTime::from_timestamp(secs, nanos).is_some()
}

/// `chrono::DateTime::timestamp_nanos_opt`: the nanoseconds since the Unix epoch, or nothing where
/// they overflow.
#[verifier::external_body]
fn date_time_nanos(secs: i64, nanos: u32) -> (r: Option<i64>)
    requires
        is_instant(secs as int, nanos as int),
    ensures
        r == nanos_since_epoch(secs as int, nanos as int),
{
    chrono::DateTime::from_timestamp(secs, nanos).and_then(|t| t.timestamp_nanos_opt())
}

/// The RFC 3339 notation that `chrono` gives an instant.
pub uninterp spec fn rfc3339(secs: i64, nanos: u32) -> Seq<char>;

/// `chrono::DateTime::to_rfc3339_opts`, in UTC written as `Z` and with as many groups of three
/// fractional digits as the instant needs. What the text is stands in the documentation of `chrono`.
#[verifier::external_body]
fn date_time_text(secs: i64, nanos: u32) -> (r: String)
    requires
        is_instant(secs as int, nanos as int),
    ensures
        r@ == rfc3339(secs, nanos),
{
    let t = chrono::DateTime::from_timestamp(secs, nanos).unwrap_or_default();
    t.to_rfc3339_opts(chrono::SecondsFormat::AutoSi, true)
}

/// The text that the `Debug` of `chrono` gives an instant.
pub uninterp spec fn instant_words(secs: i64, nanos: u32) -> Seq<char>;

/// `<chrono::DateTime<Utc> as Debug>::fmt`: the date, the time of day and the offset. The text depends
/// on the instant alone; what it is stands in the documentation of `chrono`.
#[verifier::external_body]
fn date_time_words(secs: i64, nanos: u32) -> (r: String)
    requires
        is_instant(secs as int, nanos as int),
    ensures
        r@ == instant_words(secs, nanos),
{
    format!("{:?}", chrono::DateTime::from_timestamp(secs, nanos).unwrap_or_default())
}

/// The seconds and nanoseconds of the instant that `chrono` reads in a text, if it reads one.
pub uninterp spec fn rfc3339_instant(text: Seq<char>) -> Option<(i64, u32)>;

/// `chrono::DateTime::parse_from_rfc3339`, brought to UTC. What texts it accepts stands in its
/// documentation; what it reads is an instant.
#[verifier::external_body]
fn parse_date_time(text: &str) -> (r: Option<(i64, u32)>)
    ensures
        r == rfc3339_instant(text@),
        r matches Some(p) ==> is_instant(p.0 as int, p.1 as int),
{
    let t = chrono::DateTime::parse_from_rfc3339(text).ok()?;
    Some((t.timestamp(), t.timestamp_subsec_nanos()))
}

/// An instant: seconds since the Unix epoch and nanoseconds within the second.
#[derive(Clone, Copy, Debug, PartialEq, Eq, Structural)]
pub struct Timestamp {
    secs: i64,
    nanos: u32,
}

impl Timestamp {
    #[verifier::type_invariant]
    spec fn inv(self) -> bool {
        is_instant(self.secs as int, self.nanos as int)
    }

    /// The seconds since the Unix epoch.
    pub closed spec fn spec_secs(self) -> i64 {
        self.secs
    }

    /// The nanoseconds within the second.
    pub closed spec fn spec_nanos(self) -> u32 {
        self.nanos
    }

    /// The instant at these seconds and nanoseconds.
    pub closed spec fn at(secs: i64, nanos: u32) -> Timestamp {
        Timestamp { secs, nanos }
    }

    /// The instant at these seconds and nanoseconds, if there is one.
    pub fn from_timestamp(secs: i64, nanos: u32) -> (r: Option<Timestamp>)
        ensures
            r is Some == is_instant(secs as int, nanos as int),
            r matches Some(t) ==> t == Timestamp::at(secs, nanos) && t.spec_secs() == secs
                && t.spec_nanos() == nanos,
    {
        if has_date_time(secs, nanos) {
            Some(Timestamp { secs, nanos })
        } else {
            None
        }
    }

    pub fn timestamp(&self) -> (r: i64)
        ensures
            r == self.spec_secs(),
    {
        self.secs
    }

    pub fn timestamp_subsec_nanos(&self) -> (r: u32)
        ensures
            r == self.spec_nanos(),
    {
        self.nanos
    }

    /// The nanoseconds since the Unix epoch, where they are a 64-bit integer.
    pub fn timestamp_nanos_opt(&self) -> (r: Option<i64>)
        ensures
            r == nanos_since_epoch(self.spec_secs() as int, self.spec_nanos() as int),
    {
        proof {
            use_type_invariant(self);
        }
        date_time_nanos(self.secs, self.nanos)
    }

    /// The nanoseconds since the Unix epoch, or zero where they overflow.
    pub fn nanos_or_zero(&self) -> (r: i64)
        ensures
            r == epoch_nanos(*self),
    {
        proof {
            use_type_invariant(self);
        }
        match date_time_nanos(self.secs, self.nanos) {
            Some(n) => n,
            None => 0,
        }
    }

    /// The RFC 3339 notation.
    pub fn to_rfc3339(&self) -> (r: String)
        ensures
            r@ == rfc3339(self.spec_secs(), self.spec_nanos()),
    {
        proof {
            use_type_invariant(self);
        }
        date_time_text(self.secs, self.nanos)
    }

    /// The instant in words.
    pub fn words(&self) -> (r: String)
        ensures
            r@ == instant_words(self.spec_secs(), self.spec_nanos()),
    {
        proof {
            use_type_invariant(self);
        }
        date_time_words(self.secs, self.nanos)
    }

    /// The instant that a text gives in RFC 3339 notation.
    pub fn parse_rfc3339(text: &str) -> (r: Option<Timestamp>)
        ensures
            match r {
                Some(t) => rfc3339_instant(text@) == Some((t.spec_secs(), t.spec_nanos())) && t
                    == Timestamp::at(t.spec_secs(), t.spec_nanos()),
                None => rfc3339_instant(text@) is None,
            },
    {
        match parse_date_time(text) {
            Some((secs, nanos)) => Some(Timestamp { secs, nanos }),
            None => None,
        }
    }

    /// The instant a number of nanoseconds after the Unix epoch.
    pub fn from_nanos(nanos: u64) -> (r: Timestamp)
        ensures
            r.spec_secs() == nanos / 1_000_000_000,
            r.spec_nanos() == nanos % 1_000_000_000,
            r == instant_after(nanos),
    {
        Timestamp { secs: (nanos / 1_000_000_000) as i64, nanos: (nanos % 1_000_000_000) as u32 }
    }
}

/// The instant a number of nanoseconds after the Unix epoch.
pub open spec fn instant_after(nanos: u64) -> Timestamp {
    Timestamp::at((nanos / 1_000_000_000) as i64, (nanos % 1_000_000_000) as u32)
}

pub proof fn lemma_instant(secs: i64, nanos: u32)
    ensures
        Timestamp::at(secs, nanos).spec_secs() == secs,
        Timestamp::at(secs, nanos).spec_nanos() == nanos,
{
}

pub proof fn lemma_timestamp_at(t: Timestamp)
    ensures
        Timestamp::at(t.spec_secs(), t.spec_nanos()) == t,
{
}

/// The nanoseconds since the Unix epoch, or zero where they overflow.
pub open spec fn epoch_nanos(t: Timestamp) -> i64 {
    match nanos_since_epoch(t.spec_secs() as int, t.spec_nanos() as int) {
        Some(n) => n,
        None => 0,
    }
}

/// The bits of a signed count read as an unsigned one: a negative count wraps around.
pub open spec fn wrap_u64(i: int) -> u64 {
    (if i < 0 {
        i + 0x1_0000_0000_0000_0000
    } else {
        i
    }) as u64
}

/// The bits of an unsigned count read as a signed one.
pub open spec fn wrap_i64(n: int) -> i64 {
    (if n < 0x8000_0000_0000_0000 {
        n
    } else {
        n - 0x1_0000_0000_0000_0000
    }) as i64
}

/// The low half of the bits of `i`, as a signed number.
pub open spec fn wrap_i32(i: int) -> i32 {
    let low = i % 0x1_0000_0000;
    (if low < 0x8000_0000 {
        low
    } else {
        low - 0x1_0000_0000
    }) as i32
}

/// The low half of the bits of `i`, as an unsigned number.
pub open spec fn wrap_u32(i: int) -> u32 {
    (i % 0x1_0000_0000) as u32
}

/// `i as u64`.
pub fn to_u64(i: i64) -> (r: u64)
    ensures
        r == wrap_u64(i as int),
{
    let r: u64 = i as u64;
    assert(i >= 0 ==> r == i) by (bit_vector)
        requires
            r == i as u64,
    ;
    assert(i < 0 ==> r == i + 0x1_0000_0000_0000_0000) by (bit_vector)
        requires
            r == i as u64,
    ;
    r
}

/// `n as i64`.
pub fn to_i64(n: u64) -> (r: i64)
    ensures
        r == wrap_i64(n as int),
{
    let r: i64 = n as i64;
    assert(n < 0x8000_0000_0000_0000 ==> r == n) by (bit_vector)
        requires
            r == n as i64,
    ;
    assert(n >= 0x8000_0000_0000_0000 ==> r == n - 0x1_0000_0000_0000_0000) by (bit_vector)
        requires
            r == n as i64,
    ;
    r
}

/// `i as u32`.
pub fn to_u32(i: i64) -> (r: u32)
    ensures
        r == wrap_u32(i as int),
{
    let n: u64 = to_u64(i);
    (n % 0x1_0000_0000) as u32
}

/// `i as i32`.
pub fn to_i32(i: i64) -> (r: i32)
    ensures
        r == wrap_i32(i as int),
{
    let low: u32 = to_u32(i);
    if low < 0x8000_0000 {
        low as i32
    } else {
        (low as i64 - 0x1_0000_0000) as i32
    }
}

/// Reading bits as signed, then as unsigned again, gives the count back.
pub proof fn law_wrap_round_trip(n: u64, i: i64)
    ensures
        wrap_u64(wrap_i64(n as int) as int) == n,
        wrap_i64(wrap_u64(i as int) as int) == i,
{
}

} // verus!
