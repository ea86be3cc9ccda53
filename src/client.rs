//! Decisions of the market-data client: request throttling, the request URL,
//! the classification of responses, and retry with capped exponential backoff.
//! The caller performs the HTTP exchange and the sleeps.

use vstd::prelude::*;
use vstd::string::*;
use crate::document::{AcknowledgementMarketDocument, MarketDocument};
use crate::error::EntsoeError;
use crate::models::{BiddingZone, Price};
use crate::normalizer::{is_extraction, series_periods};
use crate::text::{decimal, prefix_chars, push_decimal, same_text};
use crate::time::{calculate_utc_bounds, compact_utc, format_period, iana_zone, known_zone, utc_bounds_of};
use crate::validation::{fill_error, fill_succeeds};

verus! {

/// Milliseconds in a minute; one token is worth this many units.
pub const UNITS_PER_TOKEN: u64 = 60000;

/// A token bucket holding `capacity` tokens, refilled continuously at `capacity`
/// tokens per minute. Tokens are counted in units of 1/60000 token, so that one
/// millisecond refills exactly `capacity` units.
#[derive(Debug, Clone, Copy, PartialEq, Eq, Structural)]
pub struct TokenBucketRateLimiter {
    pub units: u64,
    pub capacity: u64,
    pub last_refill_ms: u64,
}

impl TokenBucketRateLimiter {
    pub open spec fn wf(self) -> bool {
        0 < self.capacity <= u32::MAX && self.units <= self.capacity * UNITS_PER_TOKEN
    }

    /// The bucket after refilling up to `now_ms`.
    pub open spec fn refilled(self, now_ms: u64) -> TokenBucketRateLimiter {
        if now_ms <= self.last_refill_ms {
            self
        } else {
            let elapsed = now_ms - self.last_refill_ms;
            let add = if elapsed > UNITS_PER_TOKEN {
                UNITS_PER_TOKEN * self.capacity
            } else {
                elapsed * self.capacity
            };
            let total = self.units + add;
            let cap = self.capacity * UNITS_PER_TOKEN;
            TokenBucketRateLimiter {
                units: (if total > cap {
                    cap
                } else {
                    total
                }) as u64,
                capacity: self.capacity,
                last_refill_ms: now_ms,
            }
        }
    }

    /// The bucket after an acquire at `now_ms`, and the wait it answers (`None`
    /// when a token was taken).
    pub open spec fn acquire_spec(self, now_ms: u64) -> (TokenBucketRateLimiter, Option<u64>) {
        let b = self.refilled(now_ms);
        if b.units >= UNITS_PER_TOKEN {
            (TokenBucketRateLimiter { units: (b.units - UNITS_PER_TOKEN) as u64, ..b }, None)
        } else {
            let missing = UNITS_PER_TOKEN - b.units;
            (b, Some(((missing + b.capacity - 1) / (b.capacity as int)) as u64))
        }
    }

    /// A full bucket for `requests_per_minute` requests per minute.
    pub fn new(requests_per_minute: u32, now_ms: u64) -> (r: TokenBucketRateLimiter)
        requires
            requests_per_minute > 0,
        ensures
            r.wf(),
            r.capacity == requests_per_minute,
            r.units == r.capacity * UNITS_PER_TOKEN,
            r.last_refill_ms == now_ms,
    {
        let capacity = requests_per_minute as u64;
        TokenBucketRateLimiter { units: capacity * UNITS_PER_TOKEN, capacity, last_refill_ms: now_ms }
    }

    /// Adds what has accrued since the last refill, up to the capacity.
    pub fn refill(&mut self, now_ms: u64)
        requires
            old(self).wf(),
        ensures
            *final(self) == old(self).refilled(now_ms),
            final(self).wf(),
    {
        if now_ms <= self.last_refill_ms {
            return;
        }
        let elapsed = now_ms - self.last_refill_ms;
        proof {
            assert(elapsed <= UNITS_PER_TOKEN ==> elapsed * self.capacity <= UNITS_PER_TOKEN * u32::MAX) by (nonlinear_arith)
                requires
                    self.capacity <= u32::MAX,
            ;
        }
        let add = if elapsed > UNITS_PER_TOKEN {
            UNITS_PER_TOKEN * self.capacity
        } else {
            elapsed * self.capacity
        };
        let cap = self.capacity * UNITS_PER_TOKEN;
        let total = self.units + add;
        self.units = if total > cap {
            cap
        } else {
            total
        };
        self.last_refill_ms = now_ms;
    }

    /// Takes a token if one is available (`None`), else answers how many
    /// milliseconds to wait until one will be: `⌈(1 − tokens) / rate⌉`.
    pub fn try_acquire(&mut self, now_ms: u64) -> (r: Option<u64>)
        requires
            old(self).wf(),
        ensures
            final(self).wf(),
            (*final(self), r) == old(self).acquire_spec(now_ms),
            r matches Some(w) ==> w >= 1,
    {
        self.refill(now_ms);
        if self.units >= UNITS_PER_TOKEN {
            self.units = self.units - UNITS_PER_TOKEN;
            None
        } else {
            let missing = UNITS_PER_TOKEN - self.units;
            let wait = (missing + self.capacity - 1) / self.capacity;
            proof {
                assert(wait >= 1) by (nonlinear_arith)
                    requires
                        missing >= 1,
                        self.capacity >= 1,
                        wait == (missing + self.capacity - 1) / (self.capacity as int),
                ;
            }
            Some(wait)
        }
    }
}

/// Acquires taken by a run of acquire attempts at the given instants.
pub open spec fn acquired(b: TokenBucketRateLimiter, times: Seq<u64>) -> nat
    decreases times.len(),
{
    if times.len() == 0 {
        0
    } else {
        let (next, wait) = b.acquire_spec(times[0]);
        (if wait is None {
            1nat
        } else {
            0nat
        }) + acquired(next, times.drop_first())
    }
}

/// The bucket after a run of acquire attempts.
pub open spec fn bucket_after(b: TokenBucketRateLimiter, times: Seq<u64>) -> TokenBucketRateLimiter
    decreases times.len(),
{
    if times.len() == 0 {
        b
    } else {
        bucket_after(b.acquire_spec(times[0]).0, times.drop_first())
    }
}

pub open spec fn nondecreasing(times: Seq<u64>) -> bool {
    forall|a: int, b: int| 0 <= a < b < times.len() ==> times[a] <= times[b]
}

/// Throughput bound: over attempts at nondecreasing instants, every token taken
/// was either in the bucket at the start or accrued at `capacity` units per
/// millisecond since its last refill. Within a 60-second window that starts at
/// the last refill, at most the tokens then held plus `capacity` acquires succeed.
pub proof fn law_token_bucket_throughput(b: TokenBucketRateLimiter, times: Seq<u64>)
    requires
        b.wf(),
        times.len() > 0,
        nondecreasing(times),
        b.last_refill_ms <= times[0],
    ensures
        acquired(b, times) * UNITS_PER_TOKEN + bucket_after(b, times).units <= b.units + b.capacity * (
        times.last() - b.last_refill_ms),
        times.last() - b.last_refill_ms <= UNITS_PER_TOKEN ==> acquired(b, times) <= (b.units as int)
            / (UNITS_PER_TOKEN as int) + b.capacity,
    decreases times.len(),
{
    let (next, wait) = b.acquire_spec(times[0]);
    let r = b.refilled(times[0]);
    assert(acquired(b, times) == (if wait is None {
        1nat
    } else {
        0nat
    }) + acquired(next, times.drop_first()));
    assert(bucket_after(b, times) == bucket_after(next, times.drop_first()));
    assert(next.units + (if wait is None {
        UNITS_PER_TOKEN as int
    } else {
        0int
    }) == r.units);
    assert(r.units <= b.units + b.capacity * (times[0] - b.last_refill_ms)) by (nonlinear_arith)
        requires
            r == b.refilled(times[0]),
            b.last_refill_ms <= times[0],
            b.capacity >= 1,
    {
    }
    assert(next.wf());
    if times.len() == 1 {
        assert(times.drop_first().len() == 0);
        assert(times.last() == times[0]);
    } else {
        let rest = times.drop_first();
        assert(rest[0] == times[1]);
        assert(next.last_refill_ms == times[0]);
        assert forall|a: int, c: int| 0 <= a < c < rest.len() implies rest[a] <= rest[c] by {
            assert(rest[a] == times[a + 1]);
            assert(rest[c] == times[c + 1]);
        }
        law_token_bucket_throughput(next, rest);
        assert(rest.last() == times.last());
        assert(next.capacity == b.capacity);
        assert(b.capacity * (times[0] - b.last_refill_ms) + b.capacity * (times.last() - times[0])
            == b.capacity * (times.last() - b.last_refill_ms)) by (nonlinear_arith);
    }
    let span = times.last() - b.last_refill_ms;
    if span <= UNITS_PER_TOKEN {
        let n = acquired(b, times);
        assert(n * UNITS_PER_TOKEN <= b.units + b.capacity * span);
        assert(b.capacity * span <= b.capacity * UNITS_PER_TOKEN) by (nonlinear_arith)
            requires
                span <= UNITS_PER_TOKEN,
                b.capacity >= 1,
        ;
        assert(n <= (b.units as int) / (UNITS_PER_TOKEN as int) + b.capacity) by (nonlinear_arith)
            requires
                n * UNITS_PER_TOKEN <= b.units + b.capacity * UNITS_PER_TOKEN,
        ;
    }
}

/// Attempts allowed for one request.
pub const MAX_ATTEMPTS: u32 = 4;

/// Delay before the second attempt.
pub const BASE_DELAY_MS: u64 = 1000;

/// Upper bound of the exponential part of a delay.
pub const MAX_DELAY_MS: u64 = 60000;

pub open spec fn pow2(n: nat) -> int
    decreases n,
{
    if n == 0 {
        1
    } else {
        2 * pow2((n - 1) as nat)
    }
}

/// `min(base · 2^attempt, 60000) + ⌊capped · jitter / 5000⌋`, the jitter given in
/// thousandths in `[0, 1000)`, which adds under 20 % of the capped delay.
pub open spec fn backoff_ms(attempt: nat, base: int, jitter_permille: int) -> int {
    let exp = base * pow2(attempt);
    let capped = if exp > MAX_DELAY_MS {
        MAX_DELAY_MS as int
    } else {
        exp
    };
    capped + capped * jitter_permille / 5000
}

/// Delay before retrying after the attempt with 0-based index `attempt`.
pub fn compute_backoff_with_jitter(attempt: u32, base_delay_ms: u64, jitter_permille: u64) -> (r: u64)
    requires
        jitter_permille < 1000,
    ensures
        r == backoff_ms(attempt as nat, base_delay_ms as int, jitter_permille as int),
        r < MAX_DELAY_MS + MAX_DELAY_MS / 5,
{
    let mut exp: u64 = base_delay_ms;
    let mut i: u32 = 0;
    let mut capped_out = base_delay_ms > MAX_DELAY_MS;
    proof {
        lemma_pow2_positive(attempt as nat);
        assert(base_delay_ms * pow2(attempt as nat) >= base_delay_ms) by (nonlinear_arith)
            requires
                pow2(attempt as nat) >= 1,
        ;
        assert(pow2(0) == 1);
    }
    while i < attempt && !capped_out
        invariant
            i <= attempt,
            !capped_out ==> exp == base_delay_ms * pow2(i as nat) && exp <= MAX_DELAY_MS,
            capped_out ==> base_delay_ms * pow2(attempt as nat) > MAX_DELAY_MS,
        decreases attempt - i,
    {
        proof {
            assert(pow2((i + 1) as nat) == 2 * pow2(i as nat));
            assert(exp * 2 == base_delay_ms * pow2((i + 1) as nat)) by (nonlinear_arith)
                requires
                    exp == base_delay_ms * pow2(i as nat),
                    pow2((i + 1) as nat) == 2 * pow2(i as nat),
            ;
        }
        exp = exp * 2;
        i = i + 1;
        if exp > MAX_DELAY_MS {
            capped_out = true;
            proof {
                lemma_pow2_monotone(i as nat, attempt as nat);
                assert(base_delay_ms * pow2(i as nat) <= base_delay_ms * pow2(attempt as nat)) by (nonlinear_arith)
                    requires
                        pow2(i as nat) <= pow2(attempt as nat),
                ;
            }
        }
    }
    proof {
        if !capped_out {
            assert(i == attempt);
        }
    }
    let capped: u64 = if capped_out {
        MAX_DELAY_MS
    } else {
        exp
    };
    proof {
        assert(capped * jitter_permille <= 60000 * 1000) by (nonlinear_arith)
            requires
                capped <= MAX_DELAY_MS,
                jitter_permille < 1000,
        ;
    }
    let jitter = capped * jitter_permille / 5000;
    proof {
        assert(capped * jitter_permille / 5000 < MAX_DELAY_MS / 5) by (nonlinear_arith)
            requires
                capped <= MAX_DELAY_MS,
                jitter_permille < 1000,
        ;
    }
    capped + jitter
}

pub proof fn lemma_pow2_positive(n: nat)
    ensures
        pow2(n) >= 1,
    decreases n,
{
    if n > 0 {
        lemma_pow2_positive((n - 1) as nat);
    }
}

pub proof fn lemma_pow2_monotone(a: nat, b: nat)
    requires
        a <= b,
    ensures
        pow2(a) <= pow2(b),
    decreases b,
{
    if a < b {
        lemma_pow2_monotone(a, (b - 1) as nat);
        lemma_pow2_positive((b - 1) as nat);
    }
}

/// What to do after a failed attempt.
#[derive(Debug, Clone, Copy, PartialEq, Eq, Structural)]
pub enum RetryDecision {
    /// Sleep this many milliseconds, then attempt again.
    WaitThenRetry(u64),
    /// Surface the error.
    GiveUp,
}

/// After the attempt with 0-based index `attempt` failed with `error`: transient
/// errors are retried while attempts remain, after the backoff delay.
pub fn retry_decision(attempt: u32, error: &EntsoeError, jitter_permille: u64) -> (r: RetryDecision)
    requires
        jitter_permille < 1000,
    ensures
        r == if error.is_transient_spec() && attempt + 1 < MAX_ATTEMPTS {
            RetryDecision::WaitThenRetry(
                backoff_ms(attempt as nat, BASE_DELAY_MS as int, jitter_permille as int) as u64,
            )
        } else {
            RetryDecision::GiveUp
        },
{
    if error.is_transient() && attempt < MAX_ATTEMPTS - 1 {
        RetryDecision::WaitThenRetry(compute_backoff_with_jitter(attempt, BASE_DELAY_MS, jitter_permille))
    } else {
        RetryDecision::GiveUp
    }
}

/// Retry bound: a retry follows only the first three attempts, so a request is
/// attempted at most four times, and no wait exceeds 72 s (the 60 s cap plus
/// 20 % jitter).
pub proof fn law_retry_bound(attempt: u32, error: EntsoeError, jitter_permille: u64)
    requires
        jitter_permille < 1000,
    ensures
        ({
            let d = if error.is_transient_spec() && attempt + 1 < MAX_ATTEMPTS {
                RetryDecision::WaitThenRetry(
                    backoff_ms(attempt as nat, BASE_DELAY_MS as int, jitter_permille as int) as u64,
                )
            } else {
                RetryDecision::GiveUp
            };
            d matches RetryDecision::WaitThenRetry(w) ==> attempt + 1 < MAX_ATTEMPTS && w <= 72000
        }),
{
    let exp = BASE_DELAY_MS * pow2(attempt as nat);
    let capped = if exp > MAX_DELAY_MS {
        MAX_DELAY_MS as int
    } else {
        exp
    };
    lemma_pow2_positive(attempt as nat);
    assert(0 <= capped <= MAX_DELAY_MS);
    assert(capped * jitter_permille / 5000 <= 12000) by (nonlinear_arith)
        requires
            0 <= capped <= 60000,
            jitter_permille < 1000,
    ;
}

/// The request URL for one zone and UTC window.
pub open spec fn url_spec(base: Seq<char>, token: Seq<char>, eic: Seq<char>, start: Seq<char>, end: Seq<char>) -> Seq<char> {
    base + "?securityToken="@ + token + "&documentType=A44&processType=A01&in_Domain="@ + eic
        + "&out_Domain="@ + eic + "&periodStart="@ + start + "&periodEnd="@ + end
}

/// Assembles the day-ahead price query for one zone.
pub fn build_url(base_url: &str, security_token: &str, eic_code: &str, period_start: &str, period_end: &str) -> (r: String)
    ensures
        r@ == url_spec(base_url@, security_token@, eic_code@, period_start@, period_end@),
{
    let mut u = String::from_str(base_url);
    u.append("?securityToken=");
    u.append(security_token);
    u.append("&documentType=A44&processType=A01&in_Domain=");
    u.append(eic_code);
    u.append("&out_Domain=");
    u.append(eic_code);
    u.append("&periodStart=");
    u.append(period_start);
    u.append("&periodEnd=");
    u.append(period_end);
    u
}

/// The request URL for fetching `day` (a day number) in a zone's own time: the
/// window runs from local midnight to the next local midnight, written in UTC.
pub fn plan_request(zone: &BiddingZone, day: i32, base_url: &str, security_token: &str) -> (r: Result<String, EntsoeError>)
    requires
        day < i32::MAX,
    ensures
        !iana_zone(zone.timezone@) ==> r matches Err(EntsoeError::InvalidResponse(_)),
        iana_zone(zone.timezone@) && utc_bounds_of(zone.timezone@, day as int) is None ==> r matches Err(
            EntsoeError::AmbiguousLocalTime(_),
        ),
        iana_zone(zone.timezone@) ==> (utc_bounds_of(zone.timezone@, day as int) matches Some((a, b))
            ==> match (compact_utc(a), compact_utc(b)) {
            (Some(x), Some(y)) => r matches Ok(u) && u@ == url_spec(
                base_url@,
                security_token@,
                zone.eic_code@,
                x,
                y,
            ),
            _ => r matches Err(EntsoeError::InvalidResponse(_)),
        }),
{
    if !known_zone(zone.timezone.as_str()) {
        let mut m = String::from_str("Invalid timezone ");
        m.append(zone.timezone.as_str());
        return Err(EntsoeError::InvalidResponse(m));
    }
    let (start, end) = match calculate_utc_bounds(day, zone.timezone.as_str()) {
        Some(b) => b,
        None => return Err(EntsoeError::AmbiguousLocalTime(zone.timezone.clone())),
    };
    let period_start = match format_period(start) {
        Some(t) => t,
        None => return Err(EntsoeError::InvalidResponse(String::from_str("window start outside years 0-9999"))),
    };
    let period_end = match format_period(end) {
        Some(t) => t,
        None => return Err(EntsoeError::InvalidResponse(String::from_str("window end outside years 0-9999"))),
    };
    Ok(build_url(base_url, security_token, zone.eic_code.as_str(), period_start.as_str(), period_end.as_str()))
}

/// Sorts an HTTP answer: 200 hands the body on for decoding, 429 is rate limiting,
/// 5xx a temporary outage, anything else an invalid response.
pub fn classify_response(status: u16, body: String) -> (r: Result<String, EntsoeError>)
    ensures
        status == 200 ==> (r matches Ok(b) && b@ == body@),
        status == 429 ==> r matches Err(EntsoeError::RateLimited),
        500 <= status <= 599 ==> (r matches Err(EntsoeError::TemporaryUnavailable(m)) && m@ == "HTTP "@
            + decimal(status as nat) + ": "@ + body@),
        status != 200 && status != 429 && !(500 <= status <= 599) ==> (r matches Err(
            EntsoeError::InvalidResponse(m),
        ) && m@ == "Unexpected HTTP status "@ + decimal(status as nat) + ": "@ + body@),
{
    if status == 200 {
        return Ok(body);
    }
    if status == 429 {
        return Err(EntsoeError::RateLimited);
    }
    let transient = 500 <= status && status <= 599;
    let mut m = if transient {
        String::from_str("HTTP ")
    } else {
        String::from_str("Unexpected HTTP status ")
    };
    push_decimal(&mut m, status as u64);
    m.append(": ");
    m.append(body.as_str());
    if transient {
        Err(EntsoeError::TemporaryUnavailable(m))
    } else {
        Err(EntsoeError::InvalidResponse(m))
    }
}

pub open spec fn no_data_code() -> Seq<char> {
    seq!['9', '9', '9']
}

/// Whether an acknowledgement reports "no matching data" (reason code 999).
pub open spec fn reports_no_data(ack: AcknowledgementMarketDocument) -> bool {
    exists|i: int| 0 <= i < ack.reasons@.len() && #[trigger] ack.reasons@[i].code@ == no_data_code()
}

/// Characters of an unreadable body quoted in the error.
pub const BODY_PREFIX_CHARS: usize = 200;

pub open spec fn unreadable_message(body: Seq<char>) -> Seq<char> {
    "Failed to parse response as either Publication or Acknowledgement document. Body starts with: "@
        + if body.len() <= BODY_PREFIX_CHARS {
        body
    } else {
        body.subrange(0, BODY_PREFIX_CHARS as int)
    }
}

/// Prices of a decoded response for one zone, with the number of positions carried
/// forward. An acknowledgement with reason code 999 gives no prices and no error;
/// any other acknowledgement is an invalid response.
pub fn parse_response(doc: &MarketDocument, zone_code: &str, fetched_at: i64) -> (r: Result<(Vec<Price>, u64), EntsoeError>)
    ensures
        match doc {
            MarketDocument::Publication(p) => {
                &&& (r is Ok <==> forall|k: int|
                    0 <= k < series_periods(p.time_series@).len() ==> #[trigger] fill_succeeds(
                        series_periods(p.time_series@)[k],
                    ))
                &&& (r matches Ok((out, _)) ==> is_extraction(
                    out@,
                    series_periods(p.time_series@),
                    zone_code@,
                    fetched_at as int,
                ))
                &&& (r matches Err(e) ==> exists|k: int|
                    0 <= k < series_periods(p.time_series@).len() && fill_error(
                        series_periods(p.time_series@)[k],
                        e,
                    ))
            },
            MarketDocument::Acknowledgement(a) => if reports_no_data(*a) {
                r matches Ok((out, gaps)) && out@.len() == 0 && gaps == 0
            } else {
                r matches Err(EntsoeError::InvalidResponse(_))
            },
            MarketDocument::Unreadable(body) => r matches Err(EntsoeError::XmlParseError(m)) && m@
                == unreadable_message(body@),
        },
{
    match doc {
        MarketDocument::Publication(p) => p.extract_prices(zone_code, fetched_at),
        MarketDocument::Acknowledgement(a) => {
            proof {
                reveal_strlit("999");
                assert("999"@ =~= no_data_code());
            }
            let mut i: usize = 0;
            while i < a.reasons.len()
                invariant
                    *doc == MarketDocument::Acknowledgement(*a),
                    "999"@ == no_data_code(),
                    i <= a.reasons@.len(),
                    forall|k: int| 0 <= k < i ==> a.reasons@[k].code@ != no_data_code(),
                decreases a.reasons@.len() - i,
            {
                if same_text(a.reasons[i].code.as_str(), "999") {
                    return Ok((Vec::new(), 0));
                }
                i = i + 1;
            }
            assert(!reports_no_data(*a));
            let mut m = String::from_str("ENTSOE returned acknowledgement with reason codes:");
            let mut k: usize = 0;
            while k < a.reasons.len()
                invariant
                    *doc == MarketDocument::Acknowledgement(*a),
                    !reports_no_data(*a),
                decreases a.reasons@.len() - k,
            {
                m.append(" ");
                m.append(a.reasons[k].code.as_str());
                k = k + 1;
            }
            Err(EntsoeError::InvalidResponse(m))
        },
        MarketDocument::Unreadable(body) => {
            let mut m = String::from_str(
                "Failed to parse response as either Publication or Acknowledgement document. Body starts with: ",
            );
            let head = prefix_chars(body.as_str(), BODY_PREFIX_CHARS);
            m.append(head.as_str());
            proof {
                reveal_strlit("Failed to parse response as either Publication or Acknowledgement document. Body starts with: ");
            }
            Err(EntsoeError::XmlParseError(m))
        },
    }
}

} // verus!
