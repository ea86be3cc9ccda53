//! Instants as whole seconds since the Unix epoch (UTC) and calendar days as
//! day numbers counted from 0001-01-01 (day 1), with the calendar and time-zone
//! arithmetic delegated to chrono and chrono-tz.

use chrono::Datelike;
use chrono::TimeZone;
use chrono::Timelike;
use vstd::prelude::*;
use vstd::string::*;
use crate::error::EntsoeError;
use crate::text::{padded, push_padded};

verus! {

pub const SECONDS_PER_DAY: i64 = 86400;

/// Largest magnitude of an instant this library handles (2^62 seconds, far beyond
/// the calendar range of chrono).
pub const MAX_INSTANT: i64 = 4611686018427387904;

/// A multiple of 3600 above `MAX_INSTANT`.
const HOUR_ALIGNED_OFFSET: i128 = 4611686018427388800;

pub open spec fn valid_instant(t: int) -> bool {
    -MAX_INSTANT <= t <= MAX_INSTANT
}

/// Seconds since the epoch that chrono reads from an RFC 3339 text.
pub uninterp spec fn rfc3339_seconds(text: Seq<char>) -> Option<int>;

/// Year, month, day, hour and minute of an instant in UTC, as chrono gives them.
pub uninterp spec fn utc_fields(seconds: int) -> Option<(int, int, int, int, int)>;

/// The instant of local midnight starting `day` in an IANA zone, where it is one instant.
pub uninterp spec fn local_midnight(zone: Seq<char>, day: int) -> Option<int>;

/// Whether chrono-tz knows the zone name.
pub uninterp spec fn iana_zone(zone: Seq<char>) -> bool;

pub open spec fn opt_int(r: Option<i64>) -> Option<int> {
    match r {
        Some(x) => Some(x as int),
        None => None,
    }
}

/// `YYYY-MM-DDTHH:MMZ`: an RFC 3339 text without its seconds.
pub open spec fn is_minute_form(s: Seq<char>) -> bool {
    s.len() == 17 && s[4] == '-' && s[7] == '-' && s[10] == 'T' && s[13] == ':' && s[16] == 'Z'
}

pub open spec fn with_zero_seconds(s: Seq<char>) -> Seq<char> {
    s.subrange(0, 16) + seq![':', '0', '0', 'Z']
}

/// The instant a timestamp text denotes: RFC 3339, or the same without seconds.
pub open spec fn raw_timestamp_of(s: Seq<char>) -> Option<int> {
    match rfc3339_seconds(s) {
        Some(t) => Some(t),
        None => if is_minute_form(s) {
            rfc3339_seconds(with_zero_seconds(s))
        } else {
            None
        },
    }
}

/// The instant a timestamp text denotes, where it is within the handled range.
pub open spec fn timestamp_of(s: Seq<char>) -> Option<int> {
    match raw_timestamp_of(s) {
        Some(t) => if valid_instant(t) {
            Some(t)
        } else {
            None
        },
        None => None,
    }
}

/// Start of the UTC hour holding `t`.
pub open spec fn hour_floor(t: int) -> int {
    t - t % 3600
}

/// Relies on chrono's `DateTime::parse_from_rfc3339`, read back with `timestamp`.
#[verifier::external_body]
fn parse_rfc3339(text: &str) -> (r: Option<i64>)
    ensures
        opt_int(r) == rfc3339_seconds(text@),
{
    match chrono::DateTime::parse_from_rfc3339(text) {
        Ok(t) => Some(t.timestamp()),
        Err(_) => None,
    }
}

/// Relies on chrono's `DateTime::from_timestamp` and its calendar fields.
#[verifier::external_body]
fn utc_civil(seconds: i64) -> (r: Option<(i32, u32, u32, u32, u32)>)
    ensures
        match r {
            Some(f) => utc_fields(seconds as int) == Some(
                (f.0 as int, f.1 as int, f.2 as int, f.3 as int, f.4 as int),
            ),
            None => utc_fields(seconds as int) is None,
        },
{
    match chrono::DateTime::from_timestamp(seconds, 0) {
        Some(t) => Some((t.year(), t.month(), t.day(), t.hour(), t.minute())),
        None => None,
    }
}

/// Relies on chrono-tz's `Tz::from_local_datetime`, taking only a single answer.
#[verifier::external_body]
fn local_midnight_utc(zone: &str, day: i32) -> (r: Option<i64>)
    ensures
        opt_int(r) == local_midnight(zone@, day as int),
{
    let tz: chrono_tz::Tz = match zone.parse() {
        Ok(tz) => tz,
        Err(_) => return None,
    };
    let midnight = chrono::NaiveDate::from_num_days_from_ce_opt(day)?.and_hms_opt(0, 0, 0)?;
    match tz.from_local_datetime(&midnight) {
        chrono::LocalResult::Single(t) => Some(t.timestamp()),
        _ => None,
    }
}

/// Relies on chrono-tz's `FromStr for Tz`.
#[verifier::external_body]
pub(crate) fn known_zone(zone: &str) -> (r: bool)
    ensures
        r == iana_zone(zone@),
{
    zone.parse::<chrono_tz::Tz>().is_ok()
}

/// Parses a strict RFC 3339 timestamp within the handled range.
pub fn parse_rfc3339_instant(text: &str) -> (r: Option<i64>)
    ensures
        match r {
            Some(t) => rfc3339_seconds(text@) == Some(t as int) && valid_instant(t as int),
            None => !(rfc3339_seconds(text@) matches Some(t) && valid_instant(t)),
        },
{
    match parse_rfc3339(text) {
        Some(t) => if -MAX_INSTANT <= t && t <= MAX_INSTANT {
            Some(t)
        } else {
            None
        },
        None => None,
    }
}

/// Parses an RFC 3339 timestamp; the form `YYYY-MM-DDTHH:MMZ` is read with zero seconds.
pub fn parse_timestamp(text: &str) -> (r: Result<i64, EntsoeError>)
    ensures
        match r {
            Ok(t) => timestamp_of(text@) == Some(t as int),
            Err(e) => timestamp_of(text@) is None && e is TimestampParseError,
        },
{
    match parse_rfc3339(text) {
        Some(t) => {
            if -MAX_INSTANT <= t && t <= MAX_INSTANT {
                return Ok(t);
            }
            return Err(EntsoeError::TimestampParseError(String::from_str(text)));
        },
        None => {},
    }
    let n = text.unicode_len();
    if n == 17 && text.get_char(4) == '-' && text.get_char(7) == '-' && text.get_char(10) == 'T'
        && text.get_char(13) == ':' && text.get_char(16) == 'Z' {
        let mut full = String::from_str(text.substring_char(0, 16));
        full.append(":00Z");
        proof {
            reveal_strlit(":00Z");
            assert(full@ == with_zero_seconds(text@));
        }
        match parse_rfc3339(full.as_str()) {
            Some(t) => {
                if -MAX_INSTANT <= t && t <= MAX_INSTANT {
                    return Ok(t);
                }
            },
            None => {},
        }
    }
    Err(EntsoeError::TimestampParseError(String::from_str(text)))
}

/// Start of the UTC hour holding an instant.
pub fn hour_start(t: i64) -> (h: i64)
    requires
        valid_instant(t as int),
    ensures
        h == hour_floor(t as int),
{
    let u: i128 = t as i128 + HOUR_ALIGNED_OFFSET;
    let r: i128 = u % 3600;
    proof {
        vstd::arithmetic::div_mod::lemma_mod_multiples_vanish(1281023894007608, t as int, 3600);
        assert(3600 * 1281023894007608 == HOUR_ALIGNED_OFFSET);
        assert(0 <= (t as int) % 3600 < 3600);
    }
    (t as i128 - r) as i64
}

/// A multiple of 86400 above `MAX_INSTANT`.
const DAY_ALIGNED_OFFSET: i128 = 4611686018427446400;

/// Start of the UTC day holding `t`.
pub open spec fn day_floor(t: int) -> int {
    t - t % 86400
}

/// Start of the UTC day holding an instant.
pub fn day_start(t: i64) -> (d: i64)
    requires
        valid_instant(t as int),
    ensures
        d == day_floor(t as int),
{
    let u: i128 = t as i128 + DAY_ALIGNED_OFFSET;
    let r: i128 = u % 86400;
    proof {
        vstd::arithmetic::div_mod::lemma_mod_multiples_vanish(53375995583651, t as int, 86400);
        assert(86400 * 53375995583651 == DAY_ALIGNED_OFFSET);
        assert(0 <= (t as int) % 86400 < 86400);
    }
    (t as i128 - r) as i64
}

/// `YYYYMMDDHHMM` of an instant in UTC, for years 0 to 9999.
pub open spec fn compact_utc(seconds: int) -> Option<Seq<char>> {
    match utc_fields(seconds) {
        Some(f) => if 0 <= f.0 <= 9999 {
            Some(padded(f.0 as nat, 4) + padded(f.1 as nat, 2) + padded(f.2 as nat, 2) + padded(
                f.3 as nat,
                2,
            ) + padded(f.4 as nat, 2))
        } else {
            None
        },
        None => None,
    }
}

/// Writes an instant as `YYYYMMDDHHMM` in UTC, the form the market's period
/// parameters take; `None` outside years 0 to 9999.
pub fn format_period(seconds: i64) -> (r: Option<String>)
    ensures
        match r {
            Some(s) => compact_utc(seconds as int) == Some(s@),
            None => compact_utc(seconds as int) is None,
        },
{
    match utc_civil(seconds) {
        Some((y, mo, d, h, mi)) => {
            if y < 0 || y > 9999 {
                return None;
            }
            let mut s = String::new();
            push_padded(&mut s, y as u64, 4);
            push_padded(&mut s, mo as u64, 2);
            push_padded(&mut s, d as u64, 2);
            push_padded(&mut s, h as u64, 2);
            push_padded(&mut s, mi as u64, 2);
            Some(s)
        },
        None => None,
    }
}

pub open spec fn utc_bounds_of(zone: Seq<char>, day: int) -> Option<(int, int)> {
    match (local_midnight(zone, day), local_midnight(zone, day + 1)) {
        (Some(a), Some(b)) => Some((a, b)),
        _ => None,
    }
}

/// The UTC instants of local midnight starting `day` and the day after in `zone`;
/// `None` where the zone is unknown or either midnight is not a single instant.
pub fn calculate_utc_bounds(day: i32, zone: &str) -> (r: Option<(i64, i64)>)
    requires
        day < i32::MAX,
    ensures
        match r {
            Some((a, b)) => utc_bounds_of(zone@, day as int) == Some((a as int, b as int)),
            None => utc_bounds_of(zone@, day as int) is None,
        },
{
    let start = local_midnight_utc(zone, day);
    let end = local_midnight_utc(zone, day + 1);
    match (start, end) {
        (Some(a), Some(b)) => Some((a, b)),
        _ => None,
    }
}

} // verus!
