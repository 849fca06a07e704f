//! Points in time.
use vstd::prelude::*;

verus! {

/// A point in time: seconds since the start of 1970 in UTC, and the
/// nanoseconds within the second.
#[derive(Debug, Clone, Copy, PartialEq, Eq, Structural)]
pub struct Timestamp {
    pub secs: i64,
    pub nanos: u32,
}

/// Whether `chrono` has such a point in time: it lies in the years -262143 to
/// 262142, and only the last second of a minute may run into a leap second, which
/// has the nanoseconds from a thousand million on.
pub open spec fn is_point(t: Timestamp) -> bool {
    &&& -8_334_601_228_800 <= t.secs <= 8_210_266_876_799
    &&& t.nanos < 1_000_000_000 || (t.nanos < 2_000_000_000 && t.secs as int % 60 == 59)
}

/// Whether a point in time is less than ten million million seconds from the
/// start of 1970, as every point in the calendar of `chrono` is.
pub open spec fn in_calendar(t: Timestamp) -> bool {
    -10_000_000_000_000 < t.secs < 10_000_000_000_000 && t.nanos < 2_000_000_000
}

/// Whether `a` comes before `b`.
pub open spec fn before(a: Timestamp, b: Timestamp) -> bool {
    a.secs < b.secs || (a.secs == b.secs && a.nanos < b.nanos)
}

/// The text that `chrono` writes for a point in time, in RFC 3339 with `Z` and
/// as many digits as the fraction needs.
pub uninterp spec fn time_text(t: Timestamp) -> Seq<char>;

/// The point in time that `chrono` reads from a text.
pub uninterp spec fn time_of_text(s: Seq<char>) -> Option<Timestamp>;

/// The text that `chrono` writes for a point in time, in RFC 3339 with the
/// offset `+00:00` and as many digits as the fraction needs.
pub uninterp spec fn offset_time_text(t: Timestamp) -> Seq<char>;

/// The nanoseconds from the start of 1970 to a point in time.
pub open spec fn nanos_of(t: Timestamp) -> int {
    t.secs * 1_000_000_000 + t.nanos
}

/// The whole milliseconds from one point in time to another, none where the
/// other is not later.
pub open spec fn millis_between(from: Timestamp, to: Timestamp) -> int {
    let d = nanos_of(to) - nanos_of(from);
    if d <= 0 {
        0
    } else {
        d / 1_000_000
    }
}

impl Timestamp {
    /// The whole milliseconds that have gone by since another point in time.
    pub fn millis_since(&self, from: &Timestamp) -> (r: u64)
        ensures
            r == millis_between(*from, *self) || (r == u64::MAX && millis_between(*from, *self) > u64::MAX),
    {
        let a: i128 = self.secs as i128 * 1_000_000_000 + self.nanos as i128;
        let b: i128 = from.secs as i128 * 1_000_000_000 + from.nanos as i128;
        let d: i128 = a - b;
        if d <= 0 {
            return 0;
        }
        let ms: i128 = d / 1_000_000;
        if ms > 0xffff_ffff_ffff_ffff {
            u64::MAX
        } else {
            ms as u64
        }
    }

    /// The RFC 3339 text of this point in time with its offset; empty where it
    /// lies outside the calendar of `chrono`.
    ///
    /// `chrono::DateTime::from_timestamp` and `to_rfc3339`.
    #[verifier::external_body]
    pub(crate) fn to_offset_text(&self) -> (r: String)
        ensures
            r@ == offset_time_text(*self),
    {
        chrono::DateTime::<chrono::Utc>::from_timestamp(self.secs, self.nanos)
            .map(|t| t.to_rfc3339())
            .unwrap_or_default()
    }

    /// The point in time so many nanoseconds earlier.
    pub fn minus(&self, nanos: i64) -> (r: Timestamp)
        requires
            -20_000_000_000_000 < self.secs < 20_000_000_000_000,
            self.nanos < 1_000_000_000,
        ensures
            nanos_of(r) == nanos_of(*self) - nanos,
            r.nanos < 1_000_000_000,
            self.secs - 10_000_000_000 < r.secs < self.secs + 10_000_000_000,
    {
        let n: i128 = nanos as i128;
        let part: i128 = self.nanos as i128 - n;
        if part >= 0 {
            let p: u128 = part as u128;
            Timestamp { secs: self.secs + (p / 1_000_000_000) as i64, nanos: (p % 1_000_000_000) as u32 }
        } else {
            let m: u128 = (-part) as u128;
            let whole: i64 = ((m + 999_999_999) / 1_000_000_000) as i64;
            let rest: u128 = (whole as u128) * 1_000_000_000 - m;
            Timestamp { secs: self.secs - whole, nanos: rest as u32 }
        }
    }

    /// Whether this point comes before `other`.
    pub fn is_before(&self, other: &Timestamp) -> (r: bool)
        ensures
            r == before(*self, *other),
    {
        self.secs < other.secs || (self.secs == other.secs && self.nanos < other.nanos)
    }

    /// The RFC 3339 text of this point in time; empty where it lies outside the
    /// calendar of `chrono`.
    ///
    /// `chrono::DateTime::from_timestamp` and `to_rfc3339_opts`. The text of
    /// every point reads back as the same point, with a sign before a year outside
    /// 0 to 9999 and the second 60 in a leap second.
    #[verifier::external_body]
    pub(crate) fn to_text(&self) -> (r: String)
        ensures
            r@ == time_text(*self),
            is_point(*self) ==> time_of_text(r@) == Some(*self),
    {
        chrono::DateTime::<chrono::Utc>::from_timestamp(self.secs, self.nanos)
            .map(|t| t.to_rfc3339_opts(chrono::SecondsFormat::AutoSi, true))
            .unwrap_or_default()
    }

    /// The point in time that a text stands for.
    ///
    /// `<chrono::DateTime<chrono::Utc> as FromStr>::from_str`.
    #[verifier::external_body]
    pub(crate) fn from_text(s: &str) -> (r: Option<Timestamp>)
        ensures
            r == time_of_text(s@),
    {
        let t = s.parse::<chrono::DateTime<chrono::Utc>>().ok()?;
        Some(Timestamp { secs: t.timestamp(), nanos: t.timestamp_subsec_nanos() })
    }

    /// The current time, from `chrono::Utc::now`. Which time that is depends on
    /// the machine; it is a point that `chrono` has, outside leap seconds.
    #[verifier::external_body]
    pub(crate) fn now() -> (r: Timestamp)
        ensures
            is_point(r) && r.nanos < 1_000_000_000,
    {
        let t = chrono::Utc::now();
        Timestamp { secs: t.timestamp(), nanos: t.timestamp_subsec_nanos() }
    }
}

/// The milliseconds between two points in time are the whole ones of the time that
/// lies between them, and none where the second is not later.
pub proof fn milliseconds_lie_between(from: Timestamp, to: Timestamp)
    requires
        from.nanos < 1_000_000_000,
        to.nanos < 1_000_000_000,
    ensures
        !before(from, to) ==> millis_between(from, to) == 0,
        before(from, to) ==> {
            let gone = (to.secs - from.secs) * 1_000_000_000 + to.nanos - from.nanos;
            millis_between(from, to) * 1_000_000 <= gone < (millis_between(from, to) + 1) * 1_000_000
        },
{
}

/// Of two different points in time one comes before the other, and the order holds
/// on from one to the next.
pub proof fn time_has_an_order(a: Timestamp, b: Timestamp, c: Timestamp)
    ensures
        a == b || before(a, b) || before(b, a),
        !(before(a, b) && before(b, a)),
        before(a, b) && before(b, c) ==> before(a, c),
        a.nanos < 1_000_000_000 && b.nanos < 1_000_000_000 ==> (before(a, b) <==> nanos_of(a) < nanos_of(b)),
{
}

} // verus!
