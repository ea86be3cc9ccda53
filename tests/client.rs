use chrono::{DateTime, Datelike, NaiveDate, TimeZone, Timelike, Utc};
use entsoe_price_fetcher::client::{
    build_url, classify_response, compute_backoff_with_jitter, parse_response, plan_request, retry_decision,
    RetryDecision, TokenBucketRateLimiter, BASE_DELAY_MS, MAX_ATTEMPTS,
};
use entsoe_price_fetcher::document::{
    AcknowledgementMarketDocument, MarketDocument, Period, Point, PublicationMarketDocument, Reason, TimeInterval,
    TimeSeries,
};
use entsoe_price_fetcher::error::EntsoeError;
use entsoe_price_fetcher::models::BiddingZone;
use entsoe_price_fetcher::time::{calculate_utc_bounds, format_period};

fn day(y: i32, m: u32, d: u32) -> i32 {
    NaiveDate::from_ymd_opt(y, m, d).unwrap().num_days_from_ce()
}

fn at(seconds: i64) -> DateTime<Utc> {
    DateTime::from_timestamp(seconds, 0).unwrap()
}

fn zone(code: &str, eic: &str, tz: &str) -> BiddingZone {
    BiddingZone {
        zone_code: code.to_string(),
        zone_name: code.to_string(),
        country_code: "DE".to_string(),
        country_name: "Germany".to_string(),
        eic_code: eic.to_string(),
        timezone: tz.to_string(),
        active: true,
        created_at: 0,
        updated_at: 0,
    }
}

fn hourly_period(start: &str, end: &str, first_price: f64, n: u32) -> Period {
    Period {
        time_interval: TimeInterval { start: start.to_string(), end: end.to_string() },
        resolution: "PT60M".to_string(),
        points: (1..=n).map(|i| Point { position: i, price_amount: (first_price + i as f64).to_string() }).collect(),
    }
}

fn publication(periods: Vec<Period>) -> MarketDocument {
    MarketDocument::Publication(PublicationMarketDocument {
        xmlns: String::new(),
        m_rid: String::new(),
        time_series: vec![TimeSeries {
            currency_unit_name: "EUR".to_string(),
            price_measure_unit_name: "MWH".to_string(),
            periods,
        }],
    })
}

fn acknowledgement(codes: &[&str]) -> MarketDocument {
    MarketDocument::Acknowledgement(AcknowledgementMarketDocument {
        xmlns: String::new(),
        reasons: codes.iter().map(|c| Reason { code: c.to_string(), text: "reason".to_string() }).collect(),
    })
}

#[test]
fn test_format_period() {
    let dt = Utc.with_ymd_and_hms(2025, 12, 31, 23, 0, 0).unwrap();
    assert_eq!(format_period(dt.timestamp()).unwrap(), "202512312300");
}

#[test]
fn test_calculate_utc_bounds_cet() {
    let (start, end) = calculate_utc_bounds(day(2025, 1, 15), "Europe/Berlin").unwrap();
    assert_eq!(at(start).hour(), 23);
    assert_eq!(at(start).day(), 14);
    assert_eq!(at(end).hour(), 23);
    assert_eq!(at(end).day(), 15);
}

#[test]
fn test_calculate_utc_bounds_cest() {
    let (start, end) = calculate_utc_bounds(day(2025, 7, 15), "Europe/Berlin").unwrap();
    assert_eq!(at(start).hour(), 22);
    assert_eq!(at(start).day(), 14);
    assert_eq!(at(end).hour(), 22);
    assert_eq!(at(end).day(), 15);
}

#[test]
fn midnight_that_does_not_exist_is_refused() {
    // Chile moves its clocks forward at local midnight on 2024-09-08
    assert!(calculate_utc_bounds(day(2024, 9, 8), "America/Santiago").is_none());
    let z = zone("CL", "10Y1001A1001A000", "America/Santiago");
    assert!(matches!(plan_request(&z, day(2024, 9, 8), "https://x", "t"), Err(EntsoeError::AmbiguousLocalTime(_))));
}

#[test]
fn plan_request_builds_the_day_ahead_query() {
    let z = zone("DE-LU", "10Y1001A1001A82H", "Europe/Berlin");
    let url = plan_request(&z, day(2025, 1, 15), "https://api.example/api", "SECRET-REDACTED").unwrap();
    assert_eq!(
        url,
        "https://api.example/api?securityToken=SECRET-REDACTED&documentType=A44&processType=A01&in_Domain=10Y1001A1001A82H&out_Domain=10Y1001A1001A82H&periodStart=202501142300&periodEnd=202501152300"
    );
    let bad = zone("XX", "E", "Mars/Olympus");
    assert!(matches!(plan_request(&bad, day(2025, 1, 15), "u", "t"), Err(EntsoeError::InvalidResponse(_))));
}

#[test]
fn build_url_places_every_parameter() {
    assert_eq!(
        build_url("b", "k", "E", "s", "e"),
        "b?securityToken=k&documentType=A44&processType=A01&in_Domain=E&out_Domain=E&periodStart=s&periodEnd=e"
    );
}

#[test]
fn http_statuses_are_classified() {
    assert_eq!(classify_response(200, "<doc/>".to_string()).unwrap(), "<doc/>");
    assert!(matches!(classify_response(429, String::new()), Err(EntsoeError::RateLimited)));
    match classify_response(503, "down".to_string()) {
        Err(EntsoeError::TemporaryUnavailable(m)) => assert_eq!(m, "HTTP 503: down"),
        other => panic!("unexpected {:?}", other),
    }
    match classify_response(404, "nope".to_string()) {
        Err(EntsoeError::InvalidResponse(m)) => assert_eq!(m, "Unexpected HTTP status 404: nope"),
        other => panic!("unexpected {:?}", other),
    }
}

#[test]
fn acknowledgement_999_is_empty_without_error() {
    let (prices, gaps) = parse_response(&acknowledgement(&["999"]), "DE-LU", 0).unwrap();
    assert!(prices.is_empty());
    assert_eq!(gaps, 0);
    let (prices, _) = parse_response(&acknowledgement(&["A01", "999"]), "DE-LU", 0).unwrap();
    assert!(prices.is_empty());
}

#[test]
fn acknowledgement_with_other_code_is_invalid_response() {
    assert!(matches!(parse_response(&acknowledgement(&["B11"]), "DE-LU", 0), Err(EntsoeError::InvalidResponse(_))));
    assert!(matches!(parse_response(&acknowledgement(&[]), "DE-LU", 0), Err(EntsoeError::InvalidResponse(_))));
}

#[test]
fn unreadable_body_quotes_its_first_200_characters() {
    let body = "x".repeat(250);
    match parse_response(&MarketDocument::Unreadable(body), "AT", 0) {
        Err(EntsoeError::XmlParseError(m)) => {
            assert!(m.ends_with(&"x".repeat(200)));
            assert!(!m.ends_with(&"x".repeat(201)));
        }
        other => panic!("unexpected {:?}", other),
    }
}

#[test]
fn publication_periods_are_concatenated_and_sorted() {
    // the later day first in the document
    let late = hourly_period("2025-12-31T02:00:00Z", "2025-12-31T04:00:00Z", 10.0, 2);
    let early = hourly_period("2025-12-31T00:00:00Z", "2025-12-31T02:00:00Z", 20.0, 2);
    let (prices, _) = parse_response(&publication(vec![late, early]), "NL", 42).unwrap();
    assert_eq!(prices.len(), 4);
    for w in prices.windows(2) {
        assert!(w[0].timestamp <= w[1].timestamp);
    }
    assert_eq!(prices[0].price_kwh.to_string(), "0.021");
    assert_eq!(prices[2].price_kwh.to_string(), "0.011");
    assert!(prices.iter().all(|p| p.fetched_at == 42 && p.bidding_zone == "NL"));
}

#[test]
fn publication_with_missing_first_position_fails() {
    let mut p = hourly_period("2025-12-31T00:00:00Z", "2025-12-31T03:00:00Z", 1.0, 3);
    p.points.remove(0);
    assert!(matches!(parse_response(&publication(vec![p]), "NL", 0), Err(EntsoeError::MissingFirstPeriod)));
}

#[test]
fn backoff_doubles_and_caps() {
    assert_eq!(compute_backoff_with_jitter(0, BASE_DELAY_MS, 0), 1000);
    assert_eq!(compute_backoff_with_jitter(1, BASE_DELAY_MS, 0), 2000);
    assert_eq!(compute_backoff_with_jitter(2, BASE_DELAY_MS, 0), 4000);
    assert_eq!(compute_backoff_with_jitter(10, BASE_DELAY_MS, 0), 60000);
    assert_eq!(compute_backoff_with_jitter(10, BASE_DELAY_MS, 999), 71988);
    assert_eq!(compute_backoff_with_jitter(0, BASE_DELAY_MS, 500), 1100);
    assert!(compute_backoff_with_jitter(63, u64::MAX, 999) <= 72000);
}

#[test]
fn transient_retry_then_success_after_three_attempts() {
    // attempt 0 answers 429, attempt 1 answers 503, attempt 2 answers 200 with a day of prices
    let answers: Vec<(u16, &str)> = vec![(429, ""), (503, "busy"), (200, "ok")];
    let mut waits = Vec::new();
    let mut attempts = 0;
    let mut outcome = None;
    for attempt in 0..MAX_ATTEMPTS {
        attempts += 1;
        let (status, body) = answers[attempt as usize];
        match classify_response(status, body.to_string()) {
            Ok(b) => {
                outcome = Some(b);
                break;
            }
            Err(e) => match retry_decision(attempt, &e, 999) {
                RetryDecision::WaitThenRetry(ms) => waits.push(ms),
                RetryDecision::GiveUp => break,
            },
        }
    }
    assert_eq!(outcome.as_deref(), Some("ok"));
    assert_eq!(attempts, 3);
    assert_eq!(waits.len(), 2);
    assert!(waits[0] >= 1000 && waits[0] < 1200);
    assert!(waits[1] >= 2000 && waits[1] < 2400);
    let day = hourly_period("2025-12-30T23:00:00Z", "2025-12-31T23:00:00Z", 50.0, 24);
    let (prices, _) = parse_response(&publication(vec![day]), "DE-LU", 0).unwrap();
    assert_eq!(prices.len(), 24);
}

#[test]
fn retries_stop_after_four_attempts_and_on_permanent_errors() {
    assert_eq!(retry_decision(3, &EntsoeError::RateLimited, 0), RetryDecision::GiveUp);
    assert_eq!(retry_decision(2, &EntsoeError::RateLimited, 0), RetryDecision::WaitThenRetry(4000));
    assert_eq!(retry_decision(0, &EntsoeError::MissingFirstPeriod, 0), RetryDecision::GiveUp);
    assert_eq!(retry_decision(0, &EntsoeError::HttpError("reset".to_string()), 0), RetryDecision::GiveUp);
    assert!(EntsoeError::TemporaryUnavailable(String::new()).is_transient());
    assert!(!EntsoeError::NoData.is_transient());
}

#[test]
fn token_bucket_allows_capacity_then_asks_to_wait() {
    let mut b = TokenBucketRateLimiter::new(2, 0);
    assert_eq!(b.try_acquire(0), None);
    assert_eq!(b.try_acquire(0), None);
    // capacity 2 per minute: a token every 30 s
    assert_eq!(b.try_acquire(0), Some(30000));
    assert_eq!(b.try_acquire(10000), Some(20000));
    assert_eq!(b.try_acquire(30000), None);
    assert_eq!(b.try_acquire(30000), Some(30000));
}

#[test]
fn token_bucket_throughput_in_a_minute() {
    let capacity = 5u32;
    let mut b = TokenBucketRateLimiter::new(capacity, 0);
    let mut granted = 0;
    for t in (0..=60000u64).step_by(100) {
        if b.try_acquire(t).is_none() {
            granted += 1;
        }
    }
    // the full bucket plus one minute of refill
    assert!(granted <= 2 * capacity);
    assert_eq!(granted, 2 * capacity);
}
