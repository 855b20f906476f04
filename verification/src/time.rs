//! Instants as plain values: seconds since the Unix epoch and nanoseconds,
//! with the calendar arithmetic that the trajectory analysis needs.

use chrono::Datelike;
use vstd::prelude::*;
use crate::text::is_word;

verus! {

/// Nanoseconds in one second.
pub const NANOS_PER_SEC: u32 = 1_000_000_000;

/// Seconds in one day.
pub const SECS_PER_DAY: i64 = 86_400;

/// The first second that the calendar can represent (January 1 of year -262143, UTC).
pub const MIN_SECS: i64 = -8_334_601_228_800;

/// The last second that the calendar can represent (December 31 of year 262142, UTC).
pub const MAX_SECS: i64 = 8_210_266_876_799;

/// The first second of year 0 (0000-01-01T00:00:00Z), the earliest whose
/// RFC 3339 text has a four-digit year.
pub const RFC3339_MIN_SECS: i64 = -62_167_219_200;

/// The last second of year 9999 (9999-12-31T23:59:59Z), the latest whose RFC 3339
/// text has a four-digit year.
pub const RFC3339_MAX_SECS: i64 = 253_402_300_799;

/// An instant in UTC: whole seconds since 1970-01-01T00:00:00Z and the nanoseconds
/// within that second.
#[derive(Clone, Copy, Debug, PartialEq, Eq, Structural)]
pub struct Timestamp {
    pub secs: i64,
    pub nanos: u32,
}

/// The second within its day (0 to 86 399) of second `secs`.
pub open spec fn second_of_day(secs: int) -> int {
    secs % 86_400
}

impl Timestamp {
    /// The instant lies in the calendar's range, and its nanoseconds are below
    /// one second except in a leap second (the last second of a minute), where
    /// they run on up to two seconds.
    pub open spec fn wf(self) -> bool {
        &&& MIN_SECS <= self.secs <= MAX_SECS
        &&& self.nanos < 2 * NANOS_PER_SEC
        &&& self.nanos >= NANOS_PER_SEC ==> second_of_day(self.secs as int) % 60 == 59
    }

    /// `self` is the same instant as `other` or a later one: instants are ordered
    /// by their second and then by the nanoseconds within it.
    pub open spec fn not_before(self, other: Timestamp) -> bool {
        self.secs > other.secs || (self.secs == other.secs && self.nanos >= other.nanos)
    }

    /// The instant `secs` seconds and `nanos` nanoseconds after the epoch,
    /// or `None` where that is not a representable instant.
    pub fn new(secs: i64, nanos: u32) -> (r: Option<Timestamp>)
        ensures
            r == (if (Timestamp { secs, nanos }).wf() {
                Some(Timestamp { secs, nanos })
            } else {
                None
            }),
    {
        if MIN_SECS <= secs && secs <= MAX_SECS && nanos < 2 * NANOS_PER_SEC {
            if nanos >= NANOS_PER_SEC && second_in_day(secs) % 60 != 59 {
                None
            } else {
                Some(Timestamp { secs, nanos })
            }
        } else {
            None
        }
    }

    /// The epoch itself, 1970-01-01T00:00:00Z.
    pub fn epoch() -> (r: Timestamp)
        ensures
            r == (Timestamp { secs: 0, nanos: 0 }),
    {
        Timestamp { secs: 0, nanos: 0 }
    }

    /// Whether `self` is the same instant as `other` or a later one.
    pub fn at_or_after(&self, other: &Timestamp) -> (r: bool)
        ensures
            r == self.not_before(*other),
    {
        self.secs > other.secs || (self.secs == other.secs && self.nanos >= other.nanos)
    }
}

/// The second within its day of second `secs`.
pub fn second_in_day(secs: i64) -> (r: u64)
    requires
        MIN_SECS <= secs <= MAX_SECS,
    ensures
        r == second_of_day(secs as int),
        r < 86_400,
{
    let off: u64 = (secs - MIN_SECS) as u64;
    proof {
        lemma_shift_div(secs as int, 96_465_292, 86_400);
    }
    off % 86_400
}

/// Whole seconds in a span of `d` nanoseconds, rounded towards zero.
pub open spec fn whole_seconds(d: int) -> int {
    if d >= 0 {
        d / 1_000_000_000
    } else {
        -((-d) / 1_000_000_000)
    }
}

/// The leap second counted between two instants: where `later` falls in a
/// later second of its day than `earlier` and `earlier` is in a leap second,
/// that leap second adds one; where `later` falls in an earlier second of its
/// day and is itself in a leap second, one is taken off.
pub open spec fn leap_adjustment(later: Timestamp, earlier: Timestamp) -> int {
    let a = second_of_day(later.secs as int);
    let b = second_of_day(earlier.secs as int);
    if a > b && earlier.nanos >= NANOS_PER_SEC {
        1
    } else if a < b && later.nanos >= NANOS_PER_SEC {
        -1
    } else {
        0
    }
}

/// The nanoseconds from `earlier` to `later`, counting leap seconds as the calendar does.
pub open spec fn span_nanos(later: Timestamp, earlier: Timestamp) -> int {
    (later.secs - earlier.secs + leap_adjustment(later, earlier)) * 1_000_000_000 + later.nanos
        - earlier.nanos
}

/// The whole seconds from `earlier` to `later` (negative when `later` is before
/// `earlier`), rounded towards zero.
pub open spec fn spec_seconds_between(later: Timestamp, earlier: Timestamp) -> int {
    whole_seconds(span_nanos(later, earlier))
}

/// Whole seconds elapsed from `earlier` to `later`, rounded towards zero.
pub fn seconds_between(later: Timestamp, earlier: Timestamp) -> (r: i64)
    requires
        later.wf(),
        earlier.wf(),
    ensures
        r == spec_seconds_between(later, earlier),
{
    let a = second_in_day(later.secs);
    let b = second_in_day(earlier.secs);
    let adj: i128 = if a > b && earlier.nanos >= NANOS_PER_SEC {
        1
    } else if a < b && later.nanos >= NANOS_PER_SEC {
        -1
    } else {
        0
    };
    let d: i128 = (later.secs as i128 - earlier.secs as i128 + adj) * 1_000_000_000i128 + (
    later.nanos as i128 - earlier.nanos as i128);
    if d >= 0 {
        let q: i128 = d / 1_000_000_000i128;
        assert(q <= 20_000_000_000_000);
        q as i64
    } else {
        let q: i128 = (-d) / 1_000_000_000i128;
        assert(q <= 20_000_000_000_000);
        -(q as i64)
    }
}

/// The day, counted from 1970-01-01 (day 0), in which second `secs` falls.
pub open spec fn day_number(secs: int) -> int {
    secs / 86_400
}

/// Midnight at the start of the day in which second `secs` falls.
pub open spec fn spec_day_start(secs: int) -> int {
    day_number(secs) * 86_400
}

/// Days since the last Monday of the day in which second `secs` falls
/// (0 on Monday, 6 on Sunday); 1970-01-01 was a Thursday.
pub open spec fn spec_days_from_monday(secs: int) -> int {
    (day_number(secs) + 3) % 7
}

/// Midnight at the start of the Monday of the week in which second `secs` falls.
pub open spec fn spec_week_start(secs: int) -> int {
    spec_day_start(secs) - spec_days_from_monday(secs) * 86_400
}

proof fn lemma_shift_div(x: int, k: int, d: int)
    requires
        d > 0,
    ensures
        (x + k * d) / d == x / d + k,
        (x + k * d) % d == x % d,
{
    vstd::arithmetic::div_mod::lemma_fundamental_div_mod(x, d);
    assert((x + k * d) == (x / d + k) * d + x % d) by (nonlinear_arith)
        requires
            x == d * (x / d) + x % d,
    ;
    vstd::arithmetic::div_mod::lemma_fundamental_div_mod_converse(x + k * d, d, x / d + k, x % d);
}

/// A day starts at a midnight no later than any of its seconds and lasts 86 400 seconds.
pub proof fn law_day_start_bounds(secs: int)
    ensures
        spec_day_start(secs) <= secs < spec_day_start(secs) + 86_400,
        spec_day_start(spec_day_start(secs)) == spec_day_start(secs),
{
    vstd::arithmetic::div_mod::lemma_fundamental_div_mod(secs, 86_400);
    lemma_shift_div(0, day_number(secs), 86_400);
}

/// A week starts at midnight of a Monday, at most six days before the midnight
/// of any of its seconds.
pub proof fn law_week_starts_on_monday(secs: int)
    ensures
        spec_days_from_monday(spec_week_start(secs)) == 0,
        spec_day_start(spec_week_start(secs)) == spec_week_start(secs),
        spec_day_start(secs) - 6 * 86_400 <= spec_week_start(secs) <= spec_day_start(secs),
{
    let d = day_number(secs);
    let k = (d + 3) % 7;
    assert(spec_week_start(secs) == (d - k) * 86_400) by (nonlinear_arith)
        requires
            spec_week_start(secs) == d * 86_400 - k * 86_400,
    ;
    lemma_shift_div(0, d - k, 86_400);
    assert(day_number(spec_week_start(secs)) == d - k);
    vstd::arithmetic::div_mod::lemma_fundamental_div_mod(d + 3, 7);
    lemma_shift_div(0, (d + 3) / 7, 7);
    assert(d - k + 3 == ((d + 3) / 7) * 7);
}

/// The day of `secs`, counted from the calendar's first day (day 0).
fn day_offset(secs: i64) -> (r: u64)
    requires
        MIN_SECS <= secs <= MAX_SECS,
    ensures
        r == day_number(secs as int) + 96_465_292,
        r <= 200_000_000,
{
    let off: u64 = (secs - MIN_SECS) as u64;
    proof {
        lemma_shift_div(secs as int, 96_465_292, 86_400);
    }
    off / 86_400
}

/// Midnight at the start of the day in which second `secs` falls.
pub fn day_start(secs: i64) -> (r: i64)
    requires
        MIN_SECS <= secs <= MAX_SECS,
    ensures
        r == spec_day_start(secs as int),
        MIN_SECS <= r <= secs,
{
    let days = day_offset(secs);
    proof {
        vstd::arithmetic::div_mod::lemma_fundamental_div_mod(secs as int, 86_400);
    }
    MIN_SECS + (days as i64) * SECS_PER_DAY
}

/// Days since the last Monday (0 on Monday, 6 on Sunday) of the day in which
/// second `secs` falls.
pub fn days_from_monday(secs: i64) -> (r: i64)
    requires
        MIN_SECS <= secs <= MAX_SECS,
    ensures
        r == spec_days_from_monday(secs as int),
        0 <= r < 7,
{
    let days = day_offset(secs);
    proof {
        lemma_shift_div(day_number(secs as int) + 3, 13_780_756, 7);
    }
    ((days + 3) % 7) as i64
}

/// The day of day `days` within its year, where years are counted from March 1
/// (0 on March 1; the leap day, if any, comes last), in the proleptic Gregorian calendar.
pub open spec fn march_day_of_year(days: int) -> int {
    let z = days + 719_468;
    let era = z / 146_097;
    let doe = z - era * 146_097;
    let yoe = (doe - doe / 1_460 + doe / 36_524 - doe / 146_096) / 365;
    doe - (365 * yoe + yoe / 4 - yoe / 100)
}

/// Days from the first of its month to day `days` (0 on the first), in the
/// proleptic Gregorian calendar.
pub open spec fn day_in_month(days: int) -> int {
    let doy = march_day_of_year(days);
    let mp = (5 * doy + 2) / 153;
    doy - (153 * mp + 2) / 5
}

/// Midnight at the start of the first day of the month in which second `secs` falls.
pub open spec fn spec_month_start(secs: int) -> int {
    (day_number(secs) - day_in_month(day_number(secs))) * 86_400
}

/// A month is at most 31 days long: the day within it lies between 0 and 30.
proof fn lemma_day_in_month_bounds(days: int)
    ensures
        0 <= day_in_month(days) <= 30,
{
    let doy = march_day_of_year(days);
    let mp = (5 * doy + 2) / 153;
    let q = (153 * mp + 2) / 5;
    vstd::arithmetic::div_mod::lemma_fundamental_div_mod(5 * doy + 2, 153);
    vstd::arithmetic::div_mod::lemma_fundamental_div_mod(153 * mp + 2, 5);
}

/// The 31 days from day `first` on are the days of one January: day `first + k`
/// is its day `k`. This holds of January 1 of years -262143 and 1970.
proof fn lemma_january(days: int, first: int, era: int, doe0: int, yoe: int)
    requires
        first <= days <= first + 30,
        era * 146_097 <= first + 719_468,
        first + 719_498 < (era + 1) * 146_097,
        doe0 == first + 719_468 - era * 146_097,
        doe0 / 1_460 == (doe0 + 30) / 1_460,
        doe0 / 36_524 == (doe0 + 30) / 36_524,
        doe0 + 30 < 146_096,
        yoe * 365 <= doe0 - doe0 / 1_460 + doe0 / 36_524,
        doe0 + 30 - doe0 / 1_460 + doe0 / 36_524 < (yoe + 1) * 365,
        doe0 - (365 * yoe + yoe / 4 - yoe / 100) == 306,
    ensures
        day_in_month(days) == days - first,
{
    let z = days + 719_468;
    assert(z / 146_097 == era);
    let doe = z - era * 146_097;
    assert(doe == doe0 + (days - first));
    assert(doe / 1_460 == doe0 / 1_460);
    assert(doe / 36_524 == doe0 / 36_524);
    assert(doe / 146_096 == 0);
    assert((doe - doe / 1_460 + doe / 36_524 - doe / 146_096) / 365 == yoe);
    let doy = march_day_of_year(days);
    assert(doy == 306 + (days - first));
    assert((5 * doy + 2) / 153 == 10);
}

/// The first of a month is a midnight no later than the midnight of any of
/// its days, at most 30 days before it; it lies in the calendar's range, and
/// from the epoch on it is not before the epoch.
pub proof fn law_month_start_bounds(secs: int)
    requires
        MIN_SECS <= secs <= MAX_SECS,
    ensures
        spec_day_start(spec_month_start(secs)) == spec_month_start(secs),
        spec_day_start(secs) - 30 * 86_400 <= spec_month_start(secs) <= spec_day_start(secs),
        MIN_SECS <= spec_month_start(secs),
        secs >= 0 ==> spec_month_start(secs) >= 0,
{
    let d = day_number(secs);
    let k = day_in_month(d);
    lemma_day_in_month_bounds(d);
    lemma_shift_div(0, d - k, 86_400);
    vstd::arithmetic::div_mod::lemma_fundamental_div_mod(secs, 86_400);
    lemma_shift_div(secs, 96_465_292, 86_400);
    assert(spec_month_start(secs) == (d - k) * 86_400);
    if d <= -96_465_292 + 30 {
        lemma_january(d, -96_465_292, -656, 93_808, 256);
    }
    if 0 <= d <= 30 {
        lemma_january(d, 0, 4, 135_080, 369);
    }
}

/// Calls chrono: `DateTime::from_timestamp`, `date_naive`, `Datelike::with_day(1)`,
/// `and_hms_opt(0, 0, 0)`, `and_utc` and `timestamp`, which give midnight of the
/// first day of the month in which second `secs` falls. chrono's calendar is the
/// proleptic Gregorian one, and the contract states that midnight by the
/// civil-from-days conversion of that calendar.
#[verifier::external_body]
fn chrono_month_start(secs: i64) -> (r: i64)
    requires
        MIN_SECS <= secs <= MAX_SECS,
    ensures
        r == spec_month_start(secs as int),
{
    chrono::DateTime::from_timestamp(secs, 0).unwrap().date_naive().with_day(1).unwrap().and_hms_opt(
        0,
        0,
        0,
    ).unwrap().and_utc().timestamp()
}

/// Midnight at the start of the first day of the month in which second `secs` falls.
pub fn month_start(secs: i64) -> (r: i64)
    requires
        MIN_SECS <= secs <= MAX_SECS,
    ensures
        r == spec_month_start(secs as int),
        r == spec_day_start(r as int),
        MIN_SECS <= r <= spec_day_start(secs as int) <= secs,
        spec_day_start(secs as int) - 30 * 86_400 <= r,
        secs >= 0 ==> r >= 0,
{
    proof {
        law_month_start_bounds(secs as int);
        law_day_start_bounds(secs as int);
    }
    chrono_month_start(secs)
}

/// The instant that an RFC 3339 text denotes, as seconds since the epoch and
/// the nanoseconds within the second; `None` for a text that is not RFC 3339.
pub uninterp spec fn rfc3339_instant(text: Seq<char>) -> Option<(i64, u32)>;

/// Calls chrono's `DateTime::parse_from_rfc3339` on `text`, and `timestamp` and
/// `timestamp_subsec_nanos` on its result. The contract names the outcome; the
/// grammar of RFC 3339 is not written out.
#[verifier::external_body]
fn chrono_parse_rfc3339(text: &str) -> (r: Option<(i64, u32)>)
    ensures
        r == rfc3339_instant(text@),
{
    match chrono::DateTime::parse_from_rfc3339(text) {
        Ok(dt) => Some((dt.timestamp(), dt.timestamp_subsec_nanos())),
        Err(_) => None,
    }
}

/// The instant made of parsed seconds and nanoseconds, where they make one.
pub open spec fn spec_instant_from_parts(parts: Option<(i64, u32)>) -> Option<Timestamp> {
    match parts {
        Some((secs, nanos)) => if (Timestamp { secs, nanos }).wf() {
            Some(Timestamp { secs, nanos })
        } else {
            None
        },
        None => None,
    }
}

/// Makes an instant of parsed seconds and nanoseconds.
pub fn instant_from_parts(parts: Option<(i64, u32)>) -> (r: Option<Timestamp>)
    ensures
        r == spec_instant_from_parts(parts),
        r matches Some(t) ==> t.wf(),
{
    match parts {
        Some((secs, nanos)) => Timestamp::new(secs, nanos),
        None => None,
    }
}

/// Reads an RFC 3339 date and time.
pub fn parse_instant(text: &str) -> (r: Option<Timestamp>)
    ensures
        r == spec_instant_from_parts(rfc3339_instant(text@)),
        r matches Some(t) ==> t.wf(),
{
    instant_from_parts(chrono_parse_rfc3339(text))
}

/// The RFC 3339 text of the instant `secs` seconds and `nanos` nanoseconds after the epoch, in UTC.
pub uninterp spec fn rfc3339_text(secs: i64, nanos: u32) -> Seq<char>;

/// Calls chrono's `DateTime::from_timestamp` and `to_rfc3339`. The contract
/// names the text and claims two things that chrono's `write_rfc3339` shows: the
/// text is one word of digits, signs, `T`, `:` and `.`, without whitespace; and
/// for a year from 0 to 9999 (written with four digits, the only years that
/// `parse_from_rfc3339` reads) the text reads back as the same instant, a leap
/// second included.
#[verifier::external_body]
fn chrono_format_rfc3339(secs: i64, nanos: u32) -> (r: String)
    requires
        (Timestamp { secs, nanos }).wf(),
    ensures
        r@ == rfc3339_text(secs, nanos),
        is_word(r@),
        RFC3339_MIN_SECS <= secs <= RFC3339_MAX_SECS ==> rfc3339_instant(r@) == Some((secs, nanos)),
{
    chrono::DateTime::from_timestamp(secs, nanos).unwrap().to_rfc3339()
}

/// Writes an instant as RFC 3339 text in UTC; in years 0 to 9999 it reads back
/// as the same instant.
pub fn format_instant(t: Timestamp) -> (r: String)
    requires
        t.wf(),
    ensures
        r@ == rfc3339_text(t.secs, t.nanos),
        is_word(r@),
        RFC3339_MIN_SECS <= t.secs <= RFC3339_MAX_SECS ==> spec_instant_from_parts(rfc3339_instant(r@))
            == Some(t),
{
    chrono_format_rfc3339(t.secs, t.nanos)
}

} // verus!
