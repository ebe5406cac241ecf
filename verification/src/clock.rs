//! Points in time as plain numbers, and the clocks they are read from.

use std::time::Instant;

use chrono::{DateTime, Utc};
use vstd::prelude::*;

verus! {

/// The last second that the calendar reaches (the end of the year 262142).
pub const LAST_SECOND: i64 = 8_210_266_876_799;

/// The first second that the calendar reaches (the start of the year -262143).
pub const FIRST_SECOND: i64 = -8_334_601_228_800;

/// The first second of the year 0.
pub const YEAR_0: i64 = -62_167_219_200;

/// The last second of the year 9999.
pub const YEAR_9999_END: i64 = 253_402_300_799;

/// A point in time in UTC: seconds since the Unix epoch, and the nanoseconds
/// into that second.
#[derive(Debug, Clone, Copy, PartialEq, Eq, Structural)]
pub struct Timestamp {
    pub secs: i64,
    pub nanos: u32,
}

impl Timestamp {
    /// Whether the point lies within the calendar's range. A leap second is the
    /// second 59 of its minute with a thousand million nanoseconds added.
    pub open spec fn valid(self) -> bool {
        &&& FIRST_SECOND <= self.secs <= LAST_SECOND
        &&& self.nanos < 1_000_000_000 || (self.nanos < 2_000_000_000 && self.secs % 60 == 59)
    }

    /// Whether the year has four digits.
    pub open spec fn four_digit_year(self) -> bool {
        YEAR_0 <= self.secs <= YEAR_9999_END
    }

    /// Whether the point lies before the other.
    pub open spec fn before(self, other: Timestamp) -> bool {
        self.secs < other.secs || (self.secs == other.secs && self.nanos < other.nanos)
    }
}

/// Whether the calendar clock can give the point: one from the Unix epoch on, and in
/// no leap second.
pub open spec fn clock_time(t: Timestamp) -> bool {
    0 <= t.secs <= LAST_SECOND && t.nanos < 1_000_000_000
}

/// `chrono::Utc::now`: the current time. It is not before the Unix epoch, and
/// within the calendar's range; which time it is, is not stated.
#[verifier::external_body]
pub(crate) fn utc_now() -> (r: Timestamp)
    ensures
        0 <= r.secs <= LAST_SECOND,
        r.nanos < 1_000_000_000,
{
    let now = Utc::now();
    Timestamp { secs: now.timestamp(), nanos: now.timestamp_subsec_nanos() }
}

/// The calendar clock, read in seconds since the Unix epoch. The machine's time may
/// be set back, so a reading may lie before an earlier one.
pub struct WallClock {
    last: i64,
}

impl WallClock {
    /// The last reading; zero before the first one.
    pub closed spec fn reading(&self) -> i64 {
        self.last
    }

    pub fn new() -> (r: Self)
        ensures
            r.reading() == 0,
    {
        WallClock { last: 0 }
    }

    /// The current second.
    pub fn read(&mut self) -> (r: i64)
        ensures
            r == final(self).reading(),
            0 <= r <= LAST_SECOND,
    {
        self.last = utc_now().secs;
        self.last
    }
}

/// What `DateTime::<Utc>::to_rfc3339` gives for the point in time.
pub uninterp spec fn rfc3339_text(secs: i64, nanos: u32) -> Seq<char>;

/// What `DateTime::parse_from_rfc3339` reads in the text, as the seconds and
/// nanoseconds of the same point in UTC.
pub uninterp spec fn rfc3339_point(text: Seq<char>) -> Option<(i64, u32)>;

/// Whether a text comes before another, compared character by character.
pub open spec fn text_before(a: Seq<char>, b: Seq<char>) -> bool
    decreases a.len(),
{
    if b.len() == 0 {
        false
    } else if a.len() == 0 {
        true
    } else if a[0] == b[0] {
        text_before(a.drop_first(), b.drop_first())
    } else {
        (a[0] as u32) < (b[0] as u32)
    }
}

/// Whether a text comes before the texts of just those points that the point lies
/// before, among the points of the calendar whose year has four digits.
pub open spec fn sorts_as(text: Seq<char>, point: Timestamp) -> bool {
    forall|other: Timestamp| #[trigger]
        other.valid() && other.four_digit_year() ==> (text_before(
            text,
            rfc3339_text(other.secs, other.nanos),
        ) <==> point.before(other))
}

/// `DateTime::<Utc>::to_rfc3339` of chrono. Where the year has four digits,
/// `DateTime::parse_from_rfc3339` reads the same point back, and the texts sort as
/// the points do: all parts down to the second have a fixed width, a fraction of a
/// second follows without the zeros at its end (in groups of three digits), and
/// the `+` of the offset sorts before the `.` and before every digit. A leap second
/// is written, and read, as the second 60 of its minute.
#[verifier::external_body]
pub(crate) fn to_rfc3339(t: Timestamp) -> (r: String)
    requires
        t.valid(),
    ensures
        r@ == rfc3339_text(t.secs, t.nanos),
        t.four_digit_year() ==> rfc3339_point(r@) == Some((t.secs, t.nanos)),
        t.four_digit_year() ==> sorts_as(r@, t),
{
    DateTime::<Utc>::from_timestamp(t.secs, t.nanos).unwrap().to_rfc3339()
}

/// `DateTime::parse_from_rfc3339` of chrono: the point in time that the text
/// gives, if it is an RFC 3339 date and time. The point is one of the calendar.
#[verifier::external_body]
pub(crate) fn parse_rfc3339(text: &str) -> (r: Option<Timestamp>)
    ensures
        r is Some <==> rfc3339_point(text@) is Some,
        r matches Some(t) ==> rfc3339_point(text@) == Some((t.secs, t.nanos)) && t.valid(),
{
    DateTime::parse_from_rfc3339(text).ok().map(
        |d| Timestamp { secs: d.timestamp(), nanos: d.timestamp_subsec_nanos() },
    )
}

/// What `DateTime::<Utc>::format` gives for the point in time under
/// `%Y-%m-%d %H:%M:%S`.
pub uninterp spec fn calendar_text(secs: i64, nanos: u32) -> Seq<char>;

/// `DateTime::<Utc>::format` of chrono, under `%Y-%m-%d %H:%M:%S`: the date and
/// the time of day, to the second.
#[verifier::external_body]
pub(crate) fn to_calendar(t: Timestamp) -> (r: String)
    requires
        t.valid(),
    ensures
        r@ == calendar_text(t.secs, t.nanos),
{
    let point = DateTime::<Utc>::from_timestamp(t.secs, t.nanos).unwrap();
    point.format("%Y-%m-%d %H:%M:%S").to_string()
}

/// `std::time::Instant`: a reading of the monotonic clock.
#[verifier::external_type_specification]
#[verifier::external_body]
pub struct ExInstant(Instant);

/// `Instant::now` of std. Nothing is stated of the reading.
pub assume_specification[ Instant::now ]() -> (r: Instant)
;

/// `Instant::elapsed` of std, in nanoseconds: how far the monotonic clock is
/// past `origin`. Nothing is stated of the distance.
#[verifier::external_body]
pub(crate) fn nanos_since(origin: &Instant) -> (r: u128)
{
    origin.elapsed().as_nanos()
}

/// The monotonic clock, read as the nanoseconds since it was set up. No reading is
/// behind an earlier one.
pub struct MonoClock {
    origin: Instant,
    last: u128,
}

impl MonoClock {
    /// The last reading; zero before the first one.
    pub closed spec fn reading(&self) -> u128 {
        self.last
    }

    /// A clock that starts at zero.
    pub fn new() -> (r: Self)
        ensures
            r.reading() == 0,
    {
        MonoClock { origin: Instant::now(), last: 0 }
    }

    /// The nanoseconds since the clock was set up.
    pub fn read(&mut self) -> (r: u128)
        ensures
            r == final(self).reading(),
            old(self).reading() <= r,
    {
        let now = nanos_since(&self.origin);
        if now > self.last {
            self.last = now;
        }
        self.last
    }
}

/// Of two different points one lies before the other, and not the other way round.
pub proof fn law_points_are_in_order(a: Timestamp, b: Timestamp)
    ensures
        a.before(b) ==> !b.before(a),
        a != b ==> a.before(b) || b.before(a),
        a.secs < b.secs ==> a.before(b),
{
}

} // verus!
