//! Moments in time and how they are written.

use crate::text::text_in;
use vstd::prelude::*;

verus! {

/// A moment in UTC: seconds since 1970 without leap seconds, and nanoseconds
/// since then. In a leap second these are a thousand million or more.
#[derive(Clone, Copy, Debug, PartialEq, Eq, Structural)]
pub struct Timestamp {
    pub secs: i64,
    pub nanos: u32,
}

/// `a` is earlier than `b`, or the same moment.
pub open spec fn is_no_later(a: Timestamp, b: Timestamp) -> bool {
    a.secs < b.secs || (a.secs == b.secs && a.nanos <= b.nanos)
}

/// The second of the day.
pub open spec fn second_of_day(t: Timestamp) -> int {
    t.secs as int % 86_400
}

/// A leap second that lies between two moments and is in neither's count of
/// seconds.
pub open spec fn leap_between(from: Timestamp, to: Timestamp) -> int {
    if second_of_day(to) > second_of_day(from) && from.nanos >= 1_000_000_000 {
        1
    } else if second_of_day(to) < second_of_day(from) && to.nanos >= 1_000_000_000 {
        -1
    } else {
        0
    }
}

/// The nanoseconds from one moment to another.
pub open spec fn nanos_between(from: Timestamp, to: Timestamp) -> int {
    (to.secs - from.secs + leap_between(from, to)) * 1_000_000_000 + to.nanos - from.nanos
}

/// The second of the day.
fn second_in_day(t: &Timestamp) -> (r: i128)
    ensures
        r == second_of_day(*t),
{
    // A multiple of a day that makes every second count positive.
    let shifted: i128 = t.secs as i128 + 86_400 * 0x1_0000_0000_0000;
    shifted % 86_400
}

/// The nanoseconds from one moment to another.
pub fn nanos_since(from: &Timestamp, to: &Timestamp) -> (r: i128)
    ensures
        r == nanos_between(*from, *to),
{
    let from_second: i128 = second_in_day(from);
    let to_second: i128 = second_in_day(to);
    let leap: i128 = if to_second > from_second && from.nanos >= 1_000_000_000 {
        1
    } else if to_second < from_second && to.nanos >= 1_000_000_000 {
        -1
    } else {
        0
    };
    (to.secs as i128 - from.secs as i128 + leap) * 1_000_000_000 + to.nanos as i128
        - from.nanos as i128
}

// ---------------------------------------------------------------------------
// Writing and reading
// ---------------------------------------------------------------------------

/// How moments are shown.
pub open spec fn moment_pattern() -> Seq<char> {
    "%Y-%m-%d %H:%M:%S"@
}

/// What `chrono` writes for a moment in UTC by that pattern; `None` if it has
/// no such moment.
pub uninterp spec fn utc_text(secs: i64, nanos: u32, pattern: Seq<char>) -> Option<Seq<char>>;

/// `chrono::DateTime::<Utc>::format` for the moment that
/// `chrono::DateTime::from_timestamp` makes of the numbers, as text. It is
/// claimed that the text depends on the numbers and the pattern alone.
#[verifier::external_body]
fn format_utc(secs: i64, nanos: u32, pattern: &str) -> (r: Option<String>)
    requires
        pattern@ == moment_pattern(),
    ensures
        text_in(r) == utc_text(secs, nanos, pattern@),
{
    match chrono::DateTime::from_timestamp(secs, nanos) {
        Some(moment) => Some(moment.format(pattern).to_string()),
        None => None,
    }
}

/// The seconds and nanoseconds that `chrono` reads from a text by RFC 3339;
/// `None` if the text is not written that way.
pub uninterp spec fn rfc3339_moment(text: Seq<char>) -> Option<(i64, u32)>;

/// `chrono::DateTime::parse_from_rfc3339`: the moment that a text means. It is
/// claimed that it depends on the text alone and, since a year has four digits
/// and an offset is less than a day, that it lies between a day before the
/// year 0 and a day after the year 9999. A 60th second is read as a leap second
/// after the 59th, and an offset is whole minutes, so that the result is a
/// moment of the calendar.
#[verifier::external_body]
fn parse_rfc3339(text: &str) -> (r: Option<(i64, u32)>)
    ensures
        r == rfc3339_moment(text@),
        r matches Some((secs, nanos)) ==> is_four_digit_year(secs) && is_moment(secs, nanos),
{
    match chrono::DateTime::parse_from_rfc3339(text) {
        Ok(moment) => Some((moment.timestamp(), moment.timestamp_subsec_nanos())),
        Err(_) => None,
    }
}

/// The second lies in the years 0 to 9999, or at most a day outside.
pub open spec fn is_four_digit_year(secs: i64) -> bool {
    -62_167_305_600 <= secs <= 253_402_387_200
}

/// The nanoseconds lie in the second, or in a leap second at the end of a
/// minute.
pub open spec fn is_moment(secs: i64, nanos: u32) -> bool {
    nanos < 1_000_000_000 || (nanos < 2_000_000_000 && secs as int % 60 == 59)
}

/// A moment as a clock shows it that is so many seconds ahead. A leap second
/// that does not end a minute on that clock is the second after it there.
pub open spec fn on_clock_ahead(secs: i64, nanos: u32, offset: int) -> (i64, u32) {
    if nanos < 1_000_000_000 || (secs + offset) % 60 == 59 {
        ((secs + offset) as i64, nanos)
    } else {
        ((secs + offset + 1) as i64, (nanos - 1_000_000_000) as u32)
    }
}

/// The text shows the moment at some offset from UTC of less than a day: it is
/// what is written in UTC for what a clock shows that is so much ahead.
pub open spec fn is_local_text(secs: i64, nanos: u32, text: Option<Seq<char>>) -> bool {
    exists|offset: int|
        -86_400 < offset < 86_400 && text == utc_text(
            (#[trigger] on_clock_ahead(secs, nanos, offset)).0,
            on_clock_ahead(secs, nanos, offset).1,
            moment_pattern(),
        )
}

/// `chrono::DateTime::with_timezone` to `chrono::Local`, then `format`: a
/// moment in the time zone of the machine. It is claimed that every moment of
/// the calendar has a text, and that it is the text in UTC of the moment moved
/// by an offset of less than a day: `chrono` adds the offset to the date and
/// time and formats what it gets by the same pattern, which shows neither the
/// offset nor parts of a second. Of a leap second it shows the number of the
/// second and one more, wherever in a minute the offset has moved it. Which
/// offset it is only the machine knows, so that is not claimed.
#[verifier::external_body]
fn format_local(secs: i64, nanos: u32, pattern: &str) -> (r: Option<String>)
    requires
        pattern@ == moment_pattern(),
        is_four_digit_year(secs),
    ensures
        r is Some <==> is_moment(secs, nanos),
        r is Some ==> is_local_text(secs, nanos, text_in(r)),
{
    match chrono::DateTime::from_timestamp(secs, nanos) {
        Some(moment) => Some(moment.with_timezone(&chrono::Local).format(pattern).to_string()),
        None => None,
    }
}

/// A moment in UTC as it is shown; `None` if the calendar has no such moment.
pub fn show_utc(t: &Timestamp) -> (r: Option<String>)
    ensures
        text_in(r) == utc_text(t.secs, t.nanos, moment_pattern()),
{
    format_utc(t.secs, t.nanos, "%Y-%m-%d %H:%M:%S")
}

/// A moment as it is shown, given what was written and what the machine makes
/// of it in its own time zone.
pub fn shown_or_written(local: Option<String>, written: &str) -> (r: String)
    ensures
        r@ == match text_in(local) {
            Some(t) => t,
            None => written@,
        },
{
    match local {
        Some(t) => t,
        None => written.to_owned(),
    }
}

/// `shown` shows, in some time zone, the moment that is written by RFC 3339. A
/// text that is not written that way is shown as it is.
pub open spec fn is_shown_local(written: Seq<char>, shown: Seq<char>) -> bool {
    match rfc3339_moment(written) {
        Some((secs, nanos)) => is_local_text(secs, nanos, Some(shown)),
        None => shown == written,
    }
}

/// A moment that is written by RFC 3339, shown in the time zone of the machine.
/// A text that is not written that way is shown as it is.
pub fn show_local(written: &str) -> (r: String)
    ensures
        is_shown_local(written@, r@),
{
    let local = match parse_rfc3339(written) {
        Some((secs, nanos)) => format_local(secs, nanos, "%Y-%m-%d %H:%M:%S"),
        None => None,
    };
    shown_or_written(local, written)
}

/// The time from one moment to another is that back, with the sign changed.
pub proof fn law_time_back(a: Timestamp, b: Timestamp)
    ensures
        nanos_between(a, b) == -nanos_between(b, a),
{
}

/// Between moments outside leap seconds, a moment is later just if time has
/// passed until it.
pub proof fn law_later_means_time_passed(a: Timestamp, b: Timestamp)
    requires
        a.nanos < 1_000_000_000,
        b.nanos < 1_000_000_000,
    ensures
        is_no_later(a, b) <==> nanos_between(a, b) >= 0,
{
}

/// Which of two moments is earlier goes by the seconds, and within one second by
/// the nanoseconds.
pub proof fn law_order_of_moments(a: Timestamp, b: Timestamp)
    ensures
        is_no_later(a, b) <==> a.secs * 0x1_0000_0000 + a.nanos <= b.secs * 0x1_0000_0000 + b.nanos,
        is_no_later(a, b) && is_no_later(b, a) ==> a == b,
{
}

/// Outside leap seconds, time is what a clock counts. From a moment in a leap
/// second to one later on the clock of the day, and back, that second counts too.
pub proof fn law_time_between(a: Timestamp, b: Timestamp)
    ensures
        ({
            let plain = (b.secs - a.secs) * 1_000_000_000 + (b.nanos - a.nanos);
            let (at, bt) = (a.secs as int % 86_400, b.secs as int % 86_400);
            let more = if bt > at && a.nanos >= 1_000_000_000 {
                1_000_000_000int
            } else if bt < at && b.nanos >= 1_000_000_000 {
                -1_000_000_000int
            } else {
                0int
            };
            nanos_between(a, b) == plain + more
        }),
{
}

/// A clock that is ahead shows a moment that much later, to the nanosecond; and it shows a
/// leap second only at the end of one of its minutes.
pub proof fn law_clock_ahead(secs: i64, nanos: u32, offset: int)
    requires
        is_moment(secs, nanos),
        i64::MIN <= secs + offset < i64::MAX,
    ensures
        ({
            let (s, n) = on_clock_ahead(secs, nanos, offset);
            &&& s * 1_000_000_000 + n == (secs + offset) * 1_000_000_000 + nanos
            &&& is_moment(s, n)
            &&& n >= 1_000_000_000 ==> nanos >= 1_000_000_000 && s as int % 60 == 59
            &&& offset % 60 == 0 ==> n == nanos
        }),
{
}

/// A moment is told to the nanosecond within its second, or within a second more where
/// that ends a minute.
pub proof fn law_moments_told(secs: i64, nanos: u32)
    ensures
        nanos < 1_000_000_000 ==> is_moment(secs, nanos),
        nanos >= 2_000_000_000 ==> !is_moment(secs, nanos),
        1_000_000_000 <= nanos < 2_000_000_000 ==> (is_moment(secs, nanos) <==> (secs + 1) % 60
            == 0),
{
}

/// The second of the day begins again at midnight and counts up by one until then.
pub proof fn law_second_of_day(t: Timestamp, days: int)
    ensures
        0 <= second_of_day(t) < 86_400,
        second_of_day(t) == t.secs - days * 86_400 <==> days * 86_400 <= t.secs < (days + 1)
            * 86_400,
{
}

} // verus!
