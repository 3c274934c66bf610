//! Instants on the UTC time line, with nanosecond precision, in the range
//! that the `jiff` crate supports (the years -9999 to 9999).

use vstd::prelude::*;

verus! {

/// Earliest representable instant, in nanoseconds since the Unix epoch.
pub open spec fn min_nanos() -> int {
    -377705023201int * 1_000_000_000
}

/// Latest representable instant, in nanoseconds since the Unix epoch.
pub open spec fn max_nanos() -> int {
    253402207200int * 1_000_000_000 + 999_999_999
}

pub open spec fn in_time_range(n: int) -> bool {
    min_nanos() <= n <= max_nanos()
}

pub open spec fn nanos_per_second() -> int {
    1_000_000_000int
}

/// An instant, counted in nanoseconds since 1970-01-01T00:00:00Z.
#[derive(Clone, Copy, Debug, PartialEq, Eq, Hash, Structural)]
pub struct Timestamp {
    nanosecond: i128,
}

impl View for Timestamp {
    type V = int;

    closed spec fn view(&self) -> int {
        self.nanosecond as int
    }
}

impl Timestamp {
    #[verifier::type_invariant]
    spec fn well_formed(self) -> bool {
        in_time_range(self.nanosecond as int)
    }

    /// The Unix epoch, 1970-01-01T00:00:00Z.
    pub fn unix_epoch() -> (r: Timestamp)
        ensures
            r@ == 0,
    {
        Timestamp { nanosecond: 0 }
    }

    /// The instant `n` nanoseconds after the epoch, when representable.
    pub fn from_nanosecond(n: i128) -> (r: Option<Timestamp>)
        ensures
            r is Some <==> in_time_range(n as int),
            r matches Some(t) ==> t@ == n,
    {
        if -377705023201000000000i128 <= n && n <= 253402207200999999999i128 {
            Some(Timestamp { nanosecond: n })
        } else {
            None
        }
    }

    /// The instant `s` whole seconds after the epoch, when representable.
    pub fn from_second(s: i64) -> (r: Option<Timestamp>)
        ensures
            r is Some <==> in_time_range(s * nanos_per_second()),
            r matches Some(t) ==> t@ == s * nanos_per_second(),
    {
        let n: i128 = (s as i128) * 1_000_000_000i128;
        Timestamp::from_nanosecond(n)
    }

    /// Nanoseconds since the epoch.
    pub fn as_nanosecond(&self) -> (r: i128)
        ensures
            r == self@,
            in_time_range(r as int),
    {
        proof {
            use_type_invariant(self);
        }
        self.nanosecond
    }

    /// The instant `seconds` after `self` (before it when negative), when
    /// representable (`Timestamp::checked_add` with a whole-second duration).
    pub fn checked_add_seconds(&self, seconds: i64) -> (r: Option<Timestamp>)
        ensures
            r is Some <==> in_time_range(self@ + seconds * nanos_per_second()),
            r matches Some(t) ==> t@ == self@ + seconds * nanos_per_second(),
    {
        let base = self.as_nanosecond();
        let n: i128 = base + (seconds as i128) * 1_000_000_000i128;
        Timestamp::from_nanosecond(n)
    }

    pub fn is_before(&self, other: &Timestamp) -> (r: bool)
        ensures
            r == (self@ < other@),
    {
        self.nanosecond < other.nanosecond
    }

    pub fn is_after(&self, other: &Timestamp) -> (r: bool)
        ensures
            r == (self@ > other@),
    {
        self.nanosecond > other.nanosecond
    }

    /// Nanoseconds from `earlier` to `self` (negative when `self` is earlier).
    pub fn nanos_since(&self, earlier: &Timestamp) -> (r: i128)
        ensures
            r == self@ - earlier@,
    {
        let a = self.as_nanosecond();
        let b = earlier.as_nanosecond();
        a - b
    }

    /// The instant that `text` denotes, in the RFC 3339 form that `jiff`
    /// parses (such as `2026-06-11T19:00:00Z`); `None` when it is not one.
    pub fn parse(text: &str) -> (r: Option<Timestamp>)
        ensures
            r is Some <==> parsed_timestamp(text@) is Some,
            r matches Some(t) ==> Some(t@ as i128) == parsed_timestamp(text@) && in_time_range(t@),
    {
        match parse_timestamp_nanos(text) {
            Some(n) => Timestamp::from_nanosecond(n),
            None => None,
        }
    }

    /// The current instant, read from the system clock; none when the clock
    /// reads outside the supported range.
    pub fn now() -> (r: Option<Timestamp>) {
        match current_nanos() {
            Some(n) => Some(Timestamp { nanosecond: n }),
            None => None,
        }
    }
}

/// What `jiff::Timestamp`'s `FromStr` yields for a text, as nanoseconds since
/// the epoch.
pub uninterp spec fn parsed_timestamp(text: Seq<char>) -> Option<i128>;

/// Parses `text` with `jiff` (`str::parse::<jiff::Timestamp>`) and reads the
/// instant back in nanoseconds. The claim: the result is the named parse of
/// the text, and `jiff` only yields instants inside its supported range.
#[verifier::external_body]
fn parse_timestamp_nanos(text: &str) -> (r: Option<i128>)
    ensures
        r == parsed_timestamp(text@),
        r matches Some(n) ==> in_time_range(n as int),
{
    text.parse::<jiff::Timestamp>().ok().map(|t| t.as_nanosecond())
}

/// Reads the system clock (`std::time::SystemTime::now`, turned into a
/// `jiff::Timestamp` with `Timestamp::try_from`). The claim: a reading that
/// comes back lies inside `jiff`'s supported range; none comes back when the
/// clock lies outside it. Nothing is said of its value.
#[verifier::external_body]
fn current_nanos() -> (r: Option<i128>)
    ensures
        r matches Some(n) ==> in_time_range(n as int),
{
    jiff::Timestamp::try_from(std::time::SystemTime::now()).ok().map(|t| t.as_nanosecond())
}

/// A calendar date in the system's local time zone.
#[derive(Clone, Copy, Debug, PartialEq, Eq, Structural)]
pub struct LocalDate {
    pub year: i16,
    pub month: i8,
    pub day: i8,
}

/// A date and a time of day, to the minute, in the system's local time zone.
#[derive(Clone, Copy, Debug, PartialEq, Eq, Structural)]
pub struct LocalDateTime {
    pub year: i16,
    pub month: i8,
    pub day: i8,
    pub hour: i8,
    pub minute: i8,
}

/// The ranges a civil date and time keeps: years -9999 to 9999, months 1 to
/// 12, days 1 to 31, hours 0 to 23, minutes 0 to 59.
pub open spec fn valid_local(d: LocalDateTime) -> bool {
    &&& -9999 <= d.year <= 9999
    &&& 1 <= d.month <= 12
    &&& 1 <= d.day <= 31
    &&& 0 <= d.hour <= 23
    &&& 0 <= d.minute <= 59
}

/// The civil date and time of `t` in the system time zone
/// (`jiff::Timestamp::to_zoned(TimeZone::system()).datetime()`). The claim:
/// its fields lie in the ranges `jiff`'s civil `DateTime` documents for
/// them; which date and time it is depends on the machine's time-zone
/// setting and is not stated.
#[verifier::external_body]
pub(crate) fn local_date_time(t: &Timestamp) -> (r: LocalDateTime)
    ensures
        valid_local(r),
{
    let ts = jiff::Timestamp::from_nanosecond(t.nanosecond).unwrap_or(jiff::Timestamp::UNIX_EPOCH);
    let dt = ts.to_zoned(jiff::tz::TimeZone::system()).datetime();
    LocalDateTime { year: dt.year(), month: dt.month(), day: dt.day(), hour: dt.hour(), minute: dt.minute() }
}

/// The calendar date of `t` in the system time zone.
pub(crate) fn local_date(t: &Timestamp) -> (r: LocalDate)
    ensures
        exists|d: LocalDateTime|
            #[trigger] valid_local(d) && r == (LocalDate { year: d.year, month: d.month, day: d.day }),
{
    let d = local_date_time(t);
    LocalDate { year: d.year, month: d.month, day: d.day }
}

} // verus!
