//! Records the read API hands out, and its query parameters.

use vstd::prelude::*;
use vstd::string::*;
use crate::models::BiddingZone;
use crate::time::{day_floor, parse_rfc3339_instant, rfc3339_seconds, valid_instant, SECONDS_PER_DAY};

verus! {

#[derive(Debug, Clone)]
pub struct ZoneInfo {
    pub zone_code: String,
    pub zone_name: String,
    pub country_code: String,
    pub country_name: String,
    pub eic_code: String,
    pub timezone: String,
    pub active: bool,
}

impl ZoneInfo {
    /// The registry fields of a zone, without its timestamps.
    pub fn from_zone(z: &BiddingZone) -> (r: ZoneInfo)
        ensures
            r.zone_code == z.zone_code,
            r.zone_name == z.zone_name,
            r.country_code == z.country_code,
            r.country_name == z.country_name,
            r.eic_code == z.eic_code,
            r.timezone == z.timezone,
            r.active == z.active,
    {
        ZoneInfo {
            zone_code: z.zone_code.clone(),
            zone_name: z.zone_name.clone(),
            country_code: z.country_code.clone(),
            country_name: z.country_name.clone(),
            eic_code: z.eic_code.clone(),
            timezone: z.timezone.clone(),
            active: z.active,
        }
    }
}

#[derive(Debug, Clone)]
pub struct ZonesResponse {
    pub zones: Vec<ZoneInfo>,
}

#[derive(Debug, Clone)]
pub struct CountryInfo {
    pub country_code: String,
    pub country_name: String,
}

#[derive(Debug, Clone)]
pub struct CountriesResponse {
    pub countries: Vec<CountryInfo>,
}

/// Optional RFC 3339 bounds of a range query.
#[derive(Debug, Clone)]
pub struct DateRangeQuery {
    pub start: Option<String>,
    pub end: Option<String>,
}

/// Seven days, the default look-back of a range query.
pub const DEFAULT_LOOKBACK_SECONDS: i64 = 604800;

pub open spec fn strict_instant(text: Seq<char>) -> Option<int> {
    match rfc3339_seconds(text) {
        Some(t) => if valid_instant(t) {
            Some(t)
        } else {
            None
        },
        None => None,
    }
}

impl DateRangeQuery {
    /// The half-open range `[start, end)` the query asks for, in seconds: `start`
    /// defaults to seven days before `now`, `end` to 23:59:59 UTC of the day after
    /// `now`. Unparsable bounds, and a start not before the end, are refused.
    pub fn parse(&self, now: i64) -> (r: Result<(i64, i64), String>)
        requires
            valid_instant(now as int),
        ensures
            ({
                let s = match self.start {
                    Some(t) => strict_instant(t@),
                    None => Some(now - DEFAULT_LOOKBACK_SECONDS),
                };
                let e = match self.end {
                    Some(t) => strict_instant(t@),
                    None => Some(day_floor(now as int) + 2 * SECONDS_PER_DAY - 1),
                };
                match (s, e) {
                    (Some(a), Some(b)) => if a < b {
                        r matches Ok((x, y)) && x == a && y == b
                    } else {
                        r is Err
                    },
                    _ => r is Err,
                }
            }),
    {
        let start = match &self.start {
            Some(t) => match parse_rfc3339_instant(t.as_str()) {
                Some(v) => v,
                None => return Err(String::from_str("Invalid start date format. Use ISO8601/RFC3339.")),
            },
            None => now - DEFAULT_LOOKBACK_SECONDS,
        };
        let end = match &self.end {
            Some(t) => match parse_rfc3339_instant(t.as_str()) {
                Some(v) => v,
                None => return Err(String::from_str("Invalid end date format. Use ISO8601/RFC3339.")),
            },
            None => crate::time::day_start(now) + 2 * SECONDS_PER_DAY - 1,
        };
        if start >= end {
            return Err(String::from_str("Start date must be before end date"));
        }
        Ok((start, end))
    }
}

} // verus!
