//! RFC 3339 timestamps, through chrono.
use vstd::prelude::*;

verus! {

/// The instant that chrono's RFC 3339 parser reads from `text`, as whole
/// seconds since the Unix epoch and the nanoseconds within that second;
/// `None` where the parser refuses the text. Instants compare as these pairs
/// compare, first by seconds, then by nanoseconds.
pub uninterp spec fn rfc3339_instant(text: Seq<char>) -> Option<(i64, u32)>;

/// Whether instant `a` is strictly later than instant `b`.
pub open spec fn later_than(a: (i64, u32), b: (i64, u32)) -> bool {
    a.0 > b.0 || (a.0 == b.0 && a.1 > b.1)
}

/// `chrono::DateTime::parse_from_rfc3339`, read back in UTC through
/// `DateTime::timestamp` and `DateTime::timestamp_subsec_nanos`. The parse
/// depends on the text alone; the contract names its result and says no
/// more of it.
#[verifier::external_body]
pub fn parse_timestamp(value: &str) -> (r: Option<(i64, u32)>)
    ensures
        r == rfc3339_instant(value@),
{
    match chrono::DateTime::parse_from_rfc3339(value) {
        Ok(parsed) => {
            let utc = parsed.with_timezone(&chrono::Utc);
            Some((utc.timestamp(), utc.timestamp_subsec_nanos()))
        },
        Err(_) => None,
    }
}

/// 10000-01-01T00:00:00Z in seconds since the Unix epoch: from there on,
/// RFC 3339 text can no longer write the year with four digits.
pub const FIRST_SECOND_OF_YEAR_10000: i64 = 253_402_300_800;

/// Whether `text` is a clock reading taken `seconds` and `nanos` after the
/// Unix epoch: before the year 10000 it parses back to exactly that
/// instant.
pub open spec fn is_stamp_of(text: Seq<char>, seconds: i64, nanos: u32) -> bool {
    &&& 0 <= seconds
    &&& nanos < 1_000_000_000
    &&& seconds < FIRST_SECOND_OF_YEAR_10000 ==> rfc3339_instant(text) == Some((seconds, nanos))
}

#[verifier::external_type_specification]
#[verifier::external_body]
pub struct ExSystemTime(std::time::SystemTime);

/// `SystemTime::now`: what the system clock reads. Nothing is promised of
/// the reading.
#[verifier::external_body]
fn system_now() -> (r: std::time::SystemTime) {
    std::time::SystemTime::now()
}

/// `SystemTime::duration_since(UNIX_EPOCH)`, read as whole seconds and the
/// nanoseconds within that second (`Duration::as_secs`,
/// `Duration::subsec_nanos`, which is always below one billion); `None` when
/// the time lies before the epoch. What the time is, is not promised.
#[verifier::external_body]
fn time_since_epoch(time: &std::time::SystemTime) -> (r: Option<(u64, u32)>)
    ensures
        r matches Some((_, nanos)) ==> nanos < 1_000_000_000,
{
    match time.duration_since(std::time::UNIX_EPOCH) {
        Ok(elapsed) => Some((elapsed.as_secs(), elapsed.subsec_nanos())),
        Err(_) => None,
    }
}

/// chrono's `DateTime::from_timestamp` followed by `DateTime::to_rfc3339`:
/// the RFC 3339 text of the instant `seconds` and `nanos` after the Unix
/// epoch, in UTC, with the fraction of a second in full. At or after the
/// epoch, before the year 10000 and with fewer than a billion nanoseconds,
/// the instant is in chrono's range and the text parses back to exactly that
/// instant; from the year 10000 on chrono writes a signed five-digit year
/// that its own parser refuses, and of other instants nothing is promised.
#[verifier::external_body]
fn rfc3339_utc(seconds: i64, nanos: u32) -> (r: Option<String>)
    ensures
        r is None ==> !(0 <= seconds < FIRST_SECOND_OF_YEAR_10000 && nanos < 1_000_000_000),
        r matches Some(text) ==> (0 <= seconds < FIRST_SECOND_OF_YEAR_10000 && nanos
            < 1_000_000_000 ==> rfc3339_instant(text@) == Some((seconds, nanos))),
{
    chrono::DateTime::from_timestamp(seconds, nanos).map(|instant| instant.to_rfc3339())
}

/// Reads the clock and writes the reading as an RFC 3339 stamp, as
/// `Utc::now().to_rfc3339()` would, without its panics: `None` when the
/// clock reads before the epoch or past what an `i64` of seconds or chrono
/// can hold. What the clock reads is not promised.
pub(crate) fn now_utc() -> (r: Option<(i64, u32, String)>)
    ensures
        r matches Some((seconds, nanos, text)) ==> is_stamp_of(text@, seconds, nanos),
{
    let now = system_now();
    let (secs, nanos) = match time_since_epoch(&now) {
        Some(elapsed) => elapsed,
        None => return None,
    };
    if secs > 0x7fff_ffff_ffff_ffff {
        return None;
    }
    let seconds = secs as i64;
    match rfc3339_utc(seconds, nanos) {
        Some(text) => Some((seconds, nanos, text)),
        None => None,
    }
}

/// Whether `a` is strictly later than `b`.
pub fn is_later(a: (i64, u32), b: (i64, u32)) -> (r: bool)
    ensures
        r == later_than(a, b),
{
    a.0 > b.0 || (a.0 == b.0 && a.1 > b.1)
}

} // verus!
