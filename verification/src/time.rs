//! Points in time and spans of time, both counted in nanoseconds.

use core::cmp::Ordering;
use core::ops::Add;
use vstd::bytes::{
    lemma_auto_spec_u128_to_from_le_bytes, spec_u128_from_le_bytes, spec_u128_to_le_bytes,
    u128_from_le_bytes, u128_to_le_bytes,
};
use vstd::prelude::*;
use vstd::std_specs::cmp::{PartialEqSpecImpl, PartialOrdSpecImpl};
use vstd::std_specs::ops::{AddSpec, AddSpecImpl};

verus! {

/// Nanoseconds in one second.
pub const NANOS_PER_SECOND: i128 = 1_000_000_000;

/// Nanoseconds in one millisecond.
pub const NANOS_PER_MILLI: i128 = 1_000_000;

/// Seconds in one minute.
pub const SECONDS_PER_MINUTE: i64 = 60;

/// Seconds in one hour.
pub const SECONDS_PER_HOUR: i64 = 3_600;

/// Seconds in one day.
pub const SECONDS_PER_DAY: i64 = 86_400;

/// Largest distance from the Unix epoch, in nanoseconds, that a [`DateTime`]
/// can hold (2^76 - 1).
pub const MAX_UNIX_NANOS: i128 = 75_557_863_725_914_323_419_135;

/// Largest distance from the Unix epoch, in nanoseconds, that the system
/// clock reports (2^75 - 1, a little over a million years). It is half of
/// [`MAX_UNIX_NANOS`], so a clock reading plus any span up to that length is
/// again a [`DateTime`].
pub const MAX_CLOCK_NANOS: i128 = 37_778_931_862_957_161_709_567;

/// Number of bytes in the stored form of a [`DateTime`].
pub const TIMESTAMP_BYTES: usize = 16;

/// Longest span, in nanoseconds, that a [`Duration`] can hold: the largest
/// whole number of seconds that fits in an `i64`, plus a fraction below one
/// second.
pub const MAX_DURATION_NANOS: i128 = 9_223_372_036_854_775_807_999_999_999;

/// Longest negative span, in nanoseconds, that a [`Duration`] can hold.
pub const MIN_DURATION_NANOS: i128 = -9_223_372_036_854_775_808_999_999_999;

/// A point in time: nanoseconds since 1970-01-01T00:00:00Z.
#[derive(Clone, Copy, Debug)]
pub struct DateTime {
    nanos: i128,
}

/// A signed span of time with nanosecond precision.
#[derive(Clone, Copy, Debug)]
pub struct Duration {
    nanos: i128,
}

/// Whether `nanos` is a timestamp that a [`DateTime`] can hold.
pub open spec fn timestamp_in_range(nanos: int) -> bool {
    -MAX_UNIX_NANOS <= nanos <= MAX_UNIX_NANOS
}

/// Whether `nanos` is a timestamp that the system clock can report.
pub open spec fn clock_in_range(nanos: int) -> bool {
    -MAX_CLOCK_NANOS <= nanos <= MAX_CLOCK_NANOS
}

/// Whether `nanos` is a length that a [`Duration`] can hold.
pub open spec fn duration_in_range(nanos: int) -> bool {
    MIN_DURATION_NANOS <= nanos <= MAX_DURATION_NANOS
}

impl View for Duration {
    type V = int;

    /// The length in nanoseconds.
    closed spec fn view(&self) -> int {
        self.nanos as int
    }
}

impl Duration {
    /// Every `Duration` lies between [`MIN_DURATION_NANOS`] and
    /// [`MAX_DURATION_NANOS`].
    #[verifier::type_invariant]
    pub open spec fn wf(self) -> bool {
        duration_in_range(self@)
    }

    /// The empty span.
    pub fn zero() -> (r: Duration)
        ensures
            r@ == 0,
            r.wf(),
    {
        Duration { nanos: 0 }
    }

    /// A span of `seconds` whole seconds.
    pub fn seconds(seconds: i64) -> (r: Duration)
        ensures
            r@ == seconds * NANOS_PER_SECOND,
            r.wf(),
    {
        let wide: i128 = seconds as i128;
        Duration { nanos: wide * NANOS_PER_SECOND }
    }

    /// A span of `days` days of 86 400 seconds each.
    pub fn days(days: i64) -> (r: Duration)
        requires
            i64::MIN <= days * SECONDS_PER_DAY <= i64::MAX,
        ensures
            r@ == days * SECONDS_PER_DAY * NANOS_PER_SECOND,
            r.wf(),
    {
        Duration::seconds(days * SECONDS_PER_DAY)
    }

    /// A span of `hours` hours of 3 600 seconds each.
    pub fn hours(hours: i64) -> (r: Duration)
        requires
            i64::MIN <= hours * SECONDS_PER_HOUR <= i64::MAX,
        ensures
            r@ == hours * SECONDS_PER_HOUR * NANOS_PER_SECOND,
            r.wf(),
    {
        Duration::seconds(hours * SECONDS_PER_HOUR)
    }

    /// A span of `minutes` minutes of 60 seconds each.
    pub fn minutes(minutes: i64) -> (r: Duration)
        requires
            i64::MIN <= minutes * SECONDS_PER_MINUTE <= i64::MAX,
        ensures
            r@ == minutes * SECONDS_PER_MINUTE * NANOS_PER_SECOND,
            r.wf(),
    {
        Duration::seconds(minutes * SECONDS_PER_MINUTE)
    }

    /// The length in nanoseconds.
    pub fn whole_nanoseconds(&self) -> (r: i128)
        ensures
            r == self@,
            duration_in_range(r as int),
    {
        proof {
            use_type_invariant(self);
        }
        self.nanos
    }
}

impl PartialEq for Duration {
    fn eq(&self, other: &Self) -> (r: bool) {
        self.nanos == other.nanos
    }
}

impl Eq for Duration {}

impl PartialEqSpecImpl for Duration {
    open spec fn obeys_eq_spec() -> bool {
        true
    }

    open spec fn eq_spec(&self, other: &Self) -> bool {
        self@ == other@
    }
}

impl PartialOrd for Duration {
    fn partial_cmp(&self, other: &Self) -> (r: Option<Ordering>) {
        if self.nanos < other.nanos {
            Some(Ordering::Less)
        } else if self.nanos > other.nanos {
            Some(Ordering::Greater)
        } else {
            Some(Ordering::Equal)
        }
    }
}

impl PartialOrdSpecImpl for Duration {
    open spec fn obeys_partial_cmp_spec() -> bool {
        true
    }

    open spec fn partial_cmp_spec(&self, other: &Self) -> Option<Ordering> {
        if self@ < other@ {
            Some(Ordering::Less)
        } else if self@ > other@ {
            Some(Ordering::Greater)
        } else {
            Some(Ordering::Equal)
        }
    }
}

/// The stored form of the timestamp `nanos`: the distance from the earliest
/// timestamp, as sixteen little-endian bytes.
pub open spec fn timestamp_bytes(nanos: int) -> Seq<u8>
    recommends
        timestamp_in_range(nanos),
{
    spec_u128_to_le_bytes((nanos + MAX_UNIX_NANOS) as u128)
}

/// The timestamp that `bytes` is the stored form of, if it is one.
pub open spec fn timestamp_from_bytes(bytes: Seq<u8>) -> Option<int> {
    if bytes.len() == TIMESTAMP_BYTES && spec_u128_from_le_bytes(bytes) <= 2 * MAX_UNIX_NANOS {
        Some(spec_u128_from_le_bytes(bytes) - MAX_UNIX_NANOS)
    } else {
        None
    }
}

/// Reading back the stored form of a timestamp gives that timestamp.
pub proof fn lemma_timestamp_round_trip(nanos: int)
    requires
        timestamp_in_range(nanos),
    ensures
        timestamp_bytes(nanos).len() == TIMESTAMP_BYTES,
        timestamp_from_bytes(timestamp_bytes(nanos)) == Some(nanos),
{
    lemma_auto_spec_u128_to_from_le_bytes();
}

impl View for DateTime {
    type V = int;

    /// Nanoseconds since the Unix epoch.
    closed spec fn view(&self) -> int {
        self.nanos as int
    }
}

/// Reads the system clock through `time::OffsetDateTime::now_utc` and
/// returns its Unix timestamp in nanoseconds. Nothing is claimed of the value
/// but its range: an `OffsetDateTime` holds no year beyond 999 999 either way,
/// which keeps the timestamp within 2^75 nanoseconds of the epoch.
#[verifier::external_body]
fn system_clock_nanos() -> (nanos: i128)
    ensures
        clock_in_range(nanos as int),
{
    time::OffsetDateTime::now_utc().unix_timestamp_nanos()
}

impl DateTime {
    /// Every `DateTime` lies within [`MAX_UNIX_NANOS`] of the Unix epoch.
    #[verifier::type_invariant]
    pub open spec fn wf(self) -> bool {
        timestamp_in_range(self@)
    }

    /// The current date and time, as the system clock reports it.
    pub fn now() -> (r: DateTime)
        ensures
            clock_in_range(r@),
            r.wf(),
    {
        DateTime { nanos: system_clock_nanos() }
    }

    /// The point in time `nanos` nanoseconds after the Unix epoch, if a
    /// `DateTime` can hold it.
    pub fn from_unix_timestamp_nanos(nanos: i128) -> (r: Option<DateTime>)
        ensures
            r is Some <==> timestamp_in_range(nanos as int),
            r is Some ==> r.unwrap()@ == nanos && r.unwrap().wf(),
    {
        if -MAX_UNIX_NANOS <= nanos && nanos <= MAX_UNIX_NANOS {
            Some(DateTime { nanos })
        } else {
            None
        }
    }

    /// Nanoseconds since the Unix epoch.
    pub fn unix_timestamp_nanos(&self) -> (r: i128)
        ensures
            r == self@,
            timestamp_in_range(r as int),
    {
        proof {
            use_type_invariant(self);
        }
        self.nanos
    }

    /// The time elapsed since `earlier`; negative if `earlier` is later.
    pub fn duration_since(&self, earlier: DateTime) -> (r: Duration)
        ensures
            r@ == self@ - earlier@,
            r.wf(),
    {
        proof {
            use_type_invariant(self);
            use_type_invariant(&earlier);
        }
        Duration { nanos: self.nanos - earlier.nanos }
    }

    /// This point in time moved by `span`, if a `DateTime` can hold the
    /// result.
    pub fn checked_add(&self, span: Duration) -> (r: Option<DateTime>)
        ensures
            r is Some <==> timestamp_in_range(self@ + span@),
            r is Some ==> r.unwrap()@ == self@ + span@ && r.unwrap().wf(),
    {
        proof {
            use_type_invariant(self);
            use_type_invariant(&span);
        }
        DateTime::from_unix_timestamp_nanos(self.nanos + span.nanos)
    }

    /// Whole milliseconds since the Unix epoch, rounded toward zero.
    pub fn serialize_unix_timestamp(&self) -> (r: i64)
        ensures
            r == unix_millis(self@),
    {
        proof {
            use_type_invariant(self);
        }
        let millis: i128 = self.nanos / NANOS_PER_MILLI;
        millis as i64
    }

    /// The point in time `millis` milliseconds after the Unix epoch, if a
    /// `DateTime` can hold it.
    pub fn deserialize_unix_timestamp(millis: i64) -> (r: Option<DateTime>)
        ensures
            r is Some <==> timestamp_in_range(millis * NANOS_PER_MILLI),
            r is Some ==> r.unwrap()@ == millis * NANOS_PER_MILLI && r.unwrap().wf(),
    {
        let wide: i128 = millis as i128;
        DateTime::from_unix_timestamp_nanos(wide * NANOS_PER_MILLI)
    }

    /// The stored form: sixteen bytes, see [`timestamp_bytes`].
    pub fn to_bytes(&self) -> (r: Vec<u8>)
        ensures
            r@ == timestamp_bytes(self@),
            r@.len() == TIMESTAMP_BYTES,
    {
        proof {
            use_type_invariant(self);
            lemma_auto_spec_u128_to_from_le_bytes();
        }
        let shifted: i128 = self.nanos + MAX_UNIX_NANOS;
        u128_to_le_bytes(shifted as u128)
    }

    /// Reads a stored form back; `None` unless `bytes` is the stored form of
    /// a timestamp.
    pub fn from_bytes(bytes: &[u8]) -> (r: Option<DateTime>)
        ensures
            r is Some <==> timestamp_from_bytes(bytes@) is Some,
            r is Some ==> r.unwrap()@ == timestamp_from_bytes(bytes@).unwrap()
                && r.unwrap().wf(),
    {
        if bytes.len() != TIMESTAMP_BYTES {
            return None;
        }
        let shifted: u128 = u128_from_le_bytes(bytes);
        if shifted > 151_115_727_451_828_646_838_270 {
            return None;
        }
        let nanos: i128 = shifted as i128 - MAX_UNIX_NANOS;
        Some(DateTime { nanos })
    }
}

/// Whole milliseconds in `nanos` nanoseconds, rounded toward zero.
pub open spec fn unix_millis(nanos: int) -> int {
    if nanos >= 0 {
        nanos / (NANOS_PER_MILLI as int)
    } else {
        -((-nanos) / (NANOS_PER_MILLI as int))
    }
}

impl Add<Duration> for DateTime {
    type Output = DateTime;

    fn add(self, rhs: Duration) -> (r: DateTime) {
        proof {
            use_type_invariant(&self);
            use_type_invariant(&rhs);
        }
        DateTime { nanos: self.nanos + rhs.nanos }
    }
}

impl AddSpecImpl<Duration> for DateTime {
    open spec fn obeys_add_spec() -> bool {
        true
    }

    open spec fn add_req(self, rhs: Duration) -> bool {
        timestamp_in_range(self@ + rhs@)
    }

    closed spec fn add_spec(self, rhs: Duration) -> DateTime {
        DateTime { nanos: (self.nanos + rhs.nanos) as i128 }
    }
}

/// The sum of a point in time and a span is the point that many nanoseconds
/// later.
pub proof fn lemma_add_view(at: DateTime, span: Duration)
    requires
        at.wf(),
        span.wf(),
        timestamp_in_range(at@ + span@),
    ensures
        AddSpec::add_spec(at, span)@ == at@ + span@,
        AddSpec::add_spec(at, span).wf(),
{
}

impl PartialEq for DateTime {
    fn eq(&self, other: &Self) -> (r: bool) {
        self.nanos == other.nanos
    }
}

impl Eq for DateTime {}

impl PartialEqSpecImpl for DateTime {
    open spec fn obeys_eq_spec() -> bool {
        true
    }

    open spec fn eq_spec(&self, other: &Self) -> bool {
        self@ == other@
    }
}

impl PartialOrd for DateTime {
    fn partial_cmp(&self, other: &Self) -> (r: Option<Ordering>) {
        if self.nanos < other.nanos {
            Some(Ordering::Less)
        } else if self.nanos > other.nanos {
            Some(Ordering::Greater)
        } else {
            Some(Ordering::Equal)
        }
    }
}

impl PartialOrdSpecImpl for DateTime {
    open spec fn obeys_partial_cmp_spec() -> bool {
        true
    }

    open spec fn partial_cmp_spec(&self, other: &Self) -> Option<Ordering> {
        if self@ < other@ {
            Some(Ordering::Less)
        } else if self@ > other@ {
            Some(Ordering::Greater)
        } else {
            Some(Ordering::Equal)
        }
    }
}

} // verus!
