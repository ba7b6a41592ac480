//! Identifiers and points in time that are drawn from outside.

use vstd::prelude::*;

verus! {

/// A digit of a hexadecimal number in lower case.
pub open spec fn is_hex_digit(c: char) -> bool {
    '0' <= c <= '9' || 'a' <= c <= 'f'
}

/// The notation of an identifier: groups of 8, 4, 4, 4 and 12 digits.
pub open spec fn is_id(s: Seq<char>) -> bool {
    s.len() == 36 && forall|i: int|
        0 <= i < 36 ==> if i == 8 || i == 13 || i == 18 || i == 23 {
            #[trigger] s[i] == '-'
        } else {
            is_hex_digit(s[i])
        }
}

/// `uuid::Uuid::new_v4` in its hyphenated notation. Nothing is said of the
/// digits: they are random.
#[verifier::external_body]
pub(crate) fn random_id() -> (r: String)
    ensures
        is_id(r@),
{
    uuid::Uuid::new_v4().to_string()
}

/// `chrono::Utc::now` in RFC 3339 notation. Nothing is said of the result: it
/// is the time of the call.
#[verifier::external_body]
pub(crate) fn now_text() -> (r: String)
{
    chrono::Utc::now().to_rfc3339()
}

/// `chrono::DateTime::timestamp_millis` of `chrono::Utc::now`. Nothing is said
/// of the result: it is the time of the call.
#[verifier::external_body]
pub(crate) fn now_millis() -> (r: i64)
{
    chrono::Utc::now().timestamp_millis()
}

/// A moment: the seconds since the beginning of 1970 in UTC, and the nanoseconds
/// of the second.
#[derive(Debug, Clone, Copy, PartialEq, Eq, Structural)]
pub struct Moment {
    pub secs: i64,
    pub nanos: u32,
}

impl Moment {
    /// The nanoseconds since the beginning of 1970.
    pub open spec fn nanos_at(self) -> int {
        self.secs * 1_000_000_000 + self.nanos
    }

    /// The nanoseconds from one moment to this one.
    pub fn nanos_since(&self, earlier: &Moment) -> (r: i128)
        ensures
            r == self.nanos_at() - earlier.nanos_at(),
    {
        (self.secs as i128 - earlier.secs as i128) * 1_000_000_000 + (self.nanos as i128 - earlier.nanos as i128)
    }
}

/// How far a day may be shifted.
pub const MAX_SHIFT_DAYS: i64 = 92_000_000;

/// The day, in the notation of `chrono`, so many days after the moment that lies
/// so many whole seconds behind the beginning of 1970 in UTC.
pub uninterp spec fn day_of(secs: i64, days: i64) -> Seq<char>;

/// `chrono::DateTime::date_naive` of `chrono::Utc::now` and of the same time of
/// day `days` later (earlier where `days` is negative), with that moment by its
/// seconds and nanoseconds and in RFC 3339 notation. The days go by the seconds
/// and `days` alone; of the moment nothing is said: it is the time of the call.
/// The bound keeps the other day within the range of `chrono` for every clock that
/// shows a year of four digits.
#[verifier::external_body]
pub(crate) fn now_reading(days: i64) -> (r: (Moment, String, String, String))
    requires
        -MAX_SHIFT_DAYS <= days <= MAX_SHIFT_DAYS,
    ensures
        r.1@ == day_of(r.0.secs, 0),
        r.2@ == day_of(r.0.secs, days),
{
    let now = chrono::Utc::now();
    let other = now + chrono::Duration::days(days);
    let moment = Moment { secs: now.timestamp(), nanos: now.timestamp_subsec_nanos() };
    (moment, now.date_naive().to_string(), other.date_naive().to_string(), now.to_rfc3339())
}

} // verus!
