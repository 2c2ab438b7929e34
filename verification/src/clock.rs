//! The time of day, and identifiers drawn by chance.
use vstd::prelude::*;

verus! {

/// A wall-clock text `HH:MM:SS`.
pub open spec fn is_clock_text(s: Seq<char>) -> bool {
    &&& s.len() == 8
    &&& s[2] == ':'
    &&& s[5] == ':'
    &&& forall|i: int|
        0 <= i < 8 && i != 2 && i != 5 ==> '0' <= #[trigger] s[i] <= '9'
}

/// `chrono::Local::now`, formatted as hours, minutes and seconds. Each is two
/// digits; which ones depends on the time and the time zone.
#[verifier::external_body]
pub(crate) fn wall_clock() -> (s: String)
    ensures
        is_clock_text(s@),
{
    chrono::Local::now().format("%H:%M:%S").to_string()
}

/// A moment of coordinated universal time.
#[derive(Debug, Clone, PartialEq, Eq)]
pub struct Moment {
    /// Whole seconds since the epoch.
    pub secs: i64,
    /// Nanoseconds since the last whole second.
    pub nanos: u32,
    /// As text that fits a file name.
    pub stamp: String,
    /// As an RFC 3339 text.
    pub rfc3339: String,
}

/// Milliseconds from one moment to another, without the fraction.
pub open spec fn millis_between(from: Moment, to: Moment) -> int {
    let nanos = (to.secs - from.secs) * 1_000_000_000 + (to.nanos - from.nanos);
    if nanos >= 0 {
        nanos / 1_000_000
    } else {
        -((-nanos) / 1_000_000)
    }
}

pub fn elapsed_millis(from: &Moment, to: &Moment) -> (ms: i128)
    ensures
        ms == millis_between(*from, *to),
{
    let nanos: i128 = (to.secs as i128 - from.secs as i128) * 1_000_000_000 + (to.nanos as i128
        - from.nanos as i128);
    if nanos >= 0 {
        nanos / 1_000_000
    } else {
        -((-nanos) / 1_000_000)
    }
}

/// A date and time of day that fits a file name: digits, signs and a `T`.
pub open spec fn is_stamp(s: Seq<char>) -> bool {
    &&& s.len() > 0
    &&& forall|i: int|
        0 <= i < s.len() ==> '0' <= #[trigger] s[i] <= '9' || s[i] == '-' || s[i] == '+' || s[i]
            == 'T'
}

/// Digits stand at the places from `from` up to, but without, `to`.
pub open spec fn digits(s: Seq<char>, from: int, to: int) -> bool {
    forall|i: int| from <= i < to ==> '0' <= #[trigger] s[i] <= '9'
}

/// The parts of a date and time of day in universal time, as RFC 3339 has it: a year
/// of four digits, or of more after a plus sign, that takes `year` characters;
/// month, day, hour, minute and second in two digits each; no fraction of a second,
/// or a point and three, six or nine digits; and the offset of universal time.
pub open spec fn has_rfc3339_parts(s: Seq<char>, year: int, fraction: int) -> bool {
    let at = year + 15;
    let offset = at + fraction;
    &&& year == 4 && digits(s, 0, 4) || year >= 6 && s[0] == '+' && digits(s, 1, year)
    &&& fraction == 0 || fraction == 4 || fraction == 7 || fraction == 10
    &&& s.len() == offset + 6
    &&& s[year] == '-' && digits(s, year + 1, year + 3)
    &&& s[year + 3] == '-' && digits(s, year + 4, year + 6)
    &&& s[year + 6] == 'T' && digits(s, year + 7, year + 9)
    &&& s[year + 9] == ':' && digits(s, year + 10, year + 12)
    &&& s[year + 12] == ':' && digits(s, year + 13, at)
    &&& fraction > 0 ==> s[at] == '.' && digits(s, at + 1, offset)
    &&& s.subrange(offset, offset + 6) == "+00:00"@
}

/// An RFC 3339 text of a moment in universal time.
pub open spec fn is_rfc3339(s: Seq<char>) -> bool {
    exists|year: int, fraction: int| #[trigger] has_rfc3339_parts(s, year, fraction)
}

/// `chrono::Utc::now`, taken apart by `timestamp`, `timestamp_subsec_nanos`,
/// `format` and `to_rfc3339`. The nanoseconds stay below two seconds; the stamp is
/// made of digits, of the signs in its pattern or before an unusual year, and of a
/// `T`; and the RFC 3339 text has that form, with the offset of universal time.
/// Which moment it is depends on the time.
#[verifier::external_body]
pub(crate) fn utc_now() -> (m: Moment)
    ensures
        m.nanos < 2_000_000_000,
        is_stamp(m.stamp@),
        is_rfc3339(m.rfc3339@),
{
    let now = chrono::Utc::now();
    Moment {
        secs: now.timestamp(),
        nanos: now.timestamp_subsec_nanos(),
        stamp: now.format("%Y-%m-%dT%H-%M-%S").to_string(),
        rfc3339: now.to_rfc3339(),
    }
}

/// A character of a hexadecimal number in lower case.
pub open spec fn is_hex(c: char) -> bool {
    '0' <= c <= '9' || 'a' <= c <= 'f'
}

/// The text of a universally unique identifier: 32 hexadecimal digits in five
/// groups.
pub open spec fn is_uuid(s: Seq<char>) -> bool {
    &&& s.len() == 36
    &&& forall|i: int|
        0 <= i < 36 ==> if i == 8 || i == 13 || i == 18 || i == 23 {
            #[trigger] s[i] == '-'
        } else {
            is_hex(s[i])
        }
}

/// `uuid::Uuid::new_v4`, written out. Which identifier it is depends on
/// chance; its text has the usual form.
#[verifier::external_body]
pub(crate) fn random_uuid() -> (s: String)
    ensures
        is_uuid(s@),
{
    uuid::Uuid::new_v4().to_string()
}

} // verus!
