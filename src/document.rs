//! The two shapes of market document and the resolution vocabulary.

use vstd::prelude::*;
use vstd::string::*;
use crate::error::EntsoeError;
use crate::text::same_text;

verus! {

/// The declared start and end of a period, as RFC 3339 texts.
#[derive(Debug, Clone)]
pub struct TimeInterval {
    pub start: String,
    pub end: String,
}

/// One sample of a period: a 1-based position and the price per MWh as decimal text.
#[derive(Debug, Clone)]
pub struct Point {
    pub position: u32,
    pub price_amount: String,
}

#[derive(Debug, Clone)]
pub struct Period {
    pub time_interval: TimeInterval,
    pub resolution: String,
    pub points: Vec<Point>,
}

#[derive(Debug, Clone)]
pub struct TimeSeries {
    pub currency_unit_name: String,
    pub price_measure_unit_name: String,
    pub periods: Vec<Period>,
}

/// A successful answer: prices in one or more series.
#[derive(Debug, Clone)]
pub struct PublicationMarketDocument {
    pub xmlns: String,
    pub m_rid: String,
    pub time_series: Vec<TimeSeries>,
}

#[derive(Debug, Clone)]
pub struct Reason {
    pub code: String,
    pub text: String,
}

/// An answer without prices, carrying reason codes.
#[derive(Debug, Clone)]
pub struct AcknowledgementMarketDocument {
    pub xmlns: String,
    pub reasons: Vec<Reason>,
}

/// A response body as decoded: a publication first, else an acknowledgement,
/// else neither (with the body kept).
#[derive(Debug, Clone)]
pub enum MarketDocument {
    Publication(PublicationMarketDocument),
    Acknowledgement(AcknowledgementMarketDocument),
    Unreadable(String),
}

/// Years, months, days, hours, minutes and seconds that iso8601-duration reads from
/// a duration text (weeks arrive as seven days each), each cut to a whole number.
pub uninterp spec fn iso_fields(text: Seq<char>) -> Option<(int, int, int, int, int, int)>;

/// Relies on iso8601-duration's `Duration::parse`, taking its six fields as whole
/// numbers (an `as` cast, which saturates).
#[verifier::external_body]
fn iso_duration_fields(text: &str) -> (r: Option<(i64, i64, i64, i64, i64, i64)>)
    ensures
        match r {
            Some(p) => iso_fields(text@) == Some(
                (p.0 as int, p.1 as int, p.2 as int, p.3 as int, p.4 as int, p.5 as int),
            ),
            None => iso_fields(text@) is None,
        },
{
    match iso8601_duration::Duration::parse(text) {
        Ok(d) => Some((d.year as i64, d.month as i64, d.day as i64, d.hour as i64, d.minute as i64, d.second as i64)),
        Err(_) => None,
    }
}

/// Seconds of the resolution literals that need no parser.
pub open spec fn known_resolution(s: Seq<char>) -> Option<int> {
    if s == seq!['P', 'T', '1', '5', 'M'] {
        Some(900)
    } else if s == seq!['P', 'T', '3', '0', 'M'] {
        Some(1800)
    } else if s == seq!['P', 'T', '6', '0', 'M'] || s == seq!['P', 'T', '1', 'H'] {
        Some(3600)
    } else if s == seq!['P', '1', 'D'] {
        Some(86400)
    } else if s == seq!['P', '7', 'D'] {
        Some(604800)
    } else if s == seq!['P', '1', 'Y'] {
        Some(31536000)
    } else {
        None
    }
}

/// Seconds of parsed fields: a year counts 365 days, as the literal P1Y does. A
/// month has no fixed length, so a duration with months has none.
pub open spec fn fields_seconds(f: (int, int, int, int, int, int)) -> Option<int> {
    if f.1 != 0 {
        None
    } else {
        Some(f.0 * 31536000 + f.2 * 86400 + f.3 * 3600 + f.4 * 60 + f.5)
    }
}

/// The resolution a text denotes, in seconds: positive and within `i64`.
pub open spec fn resolution_seconds(s: Seq<char>) -> Option<int> {
    match known_resolution(s) {
        Some(m) => Some(m),
        None => match iso_fields(s) {
            Some(f) => match fields_seconds(f) {
                Some(t) => if 0 < t <= i64::MAX {
                    Some(t)
                } else {
                    None
                },
                None => None,
            },
            None => None,
        },
    }
}

/// Reads a resolution in seconds. The literals PT15M, PT30M, PT60M, PT1H, P1D, P7D
/// and P1Y are known; any other text goes through an ISO 8601 duration parser. A
/// duration that is not positive, or that counts months, is refused.
pub fn parse_resolution(resolution: &str) -> (r: Result<i64, EntsoeError>)
    ensures
        match r {
            Ok(m) => resolution_seconds(resolution@) == Some(m as int),
            Err(e) => resolution_seconds(resolution@) is None && e is InvalidResolution,
        },
        r matches Ok(m) ==> 0 < m,
{
    proof {
        reveal_strlit("PT15M");
        reveal_strlit("PT30M");
        reveal_strlit("PT60M");
        reveal_strlit("PT1H");
        reveal_strlit("P1D");
        reveal_strlit("P7D");
        reveal_strlit("P1Y");
        assert("PT15M"@ =~= seq!['P', 'T', '1', '5', 'M']);
        assert("PT30M"@ =~= seq!['P', 'T', '3', '0', 'M']);
        assert("PT60M"@ =~= seq!['P', 'T', '6', '0', 'M']);
        assert("PT1H"@ =~= seq!['P', 'T', '1', 'H']);
        assert("P1D"@ =~= seq!['P', '1', 'D']);
        assert("P7D"@ =~= seq!['P', '7', 'D']);
        assert("P1Y"@ =~= seq!['P', '1', 'Y']);
    }
    if same_text(resolution, "PT15M") {
        return Ok(900);
    }
    if same_text(resolution, "PT30M") {
        return Ok(1800);
    }
    if same_text(resolution, "PT60M") || same_text(resolution, "PT1H") {
        return Ok(3600);
    }
    if same_text(resolution, "P1D") {
        return Ok(86400);
    }
    if same_text(resolution, "P7D") {
        return Ok(604800);
    }
    if same_text(resolution, "P1Y") {
        return Ok(31536000);
    }
    match iso_duration_fields(resolution) {
        Some((y, mo, d, h, mi, sec)) => {
            if mo != 0 {
                return Err(EntsoeError::InvalidResolution(String::from_str(resolution)));
            }
            proof {
                assert(-0x8000_0000_0000_0000 * 31536000 <= y * 31536000 <= 0x7fff_ffff_ffff_ffff * 31536000) by (nonlinear_arith)
                    requires
                        i64::MIN <= y <= i64::MAX,
                ;
                assert(-0x8000_0000_0000_0000 * 86400 <= d * 86400 <= 0x7fff_ffff_ffff_ffff * 86400) by (nonlinear_arith)
                    requires
                        i64::MIN <= d <= i64::MAX,
                ;
            }
            let total: i128 = y as i128 * 31536000 + d as i128 * 86400 + h as i128 * 3600 + mi as i128 * 60
                + sec as i128;
            if total > 0 && total <= i64::MAX as i128 {
                Ok(total as i64)
            } else {
                Err(EntsoeError::InvalidResolution(String::from_str(resolution)))
            }
        },
        None => Err(EntsoeError::InvalidResolution(String::from_str(resolution))),
    }
}

} // verus!
