use chrono::Datelike;
use entsoe_price_fetcher::backfill::{find_gaps, DayCount};
use entsoe_price_fetcher::dto::{DateRangeQuery, ZoneInfo};
use entsoe_price_fetcher::error::{DbFailureKind, EntsoeError, StorageError};
use entsoe_price_fetcher::fetcher::{
    error_message, final_status, should_fetch_tomorrow, summarize_zone_results, tomorrow_window, zones_missing_data,
    FetchSummary,
};
use entsoe_price_fetcher::metrics::{
    record_fetch_attempt, record_http_request, record_prices_aggregated, update_zones_with_tomorrow_data,
    MetricKind,
};
use entsoe_price_fetcher::middleware::{normalize_path, CorrelationId};
use entsoe_price_fetcher::models::{BiddingZone, FetchLog, FetchStatus, Price};
use entsoe_price_fetcher::money::Amount;

fn zone(code: &str) -> BiddingZone {
    BiddingZone {
        zone_code: code.to_string(),
        zone_name: format!("{} zone", code),
        country_code: "AT".to_string(),
        country_name: "Austria".to_string(),
        eic_code: "10YAT-APG------L".to_string(),
        timezone: "Europe/Vienna".to_string(),
        active: true,
        created_at: 1,
        updated_at: 2,
    }
}

fn prices(zone: &str, n: usize) -> Vec<Price> {
    (0..n).map(|i| Price::from_mwh(3600 * i as i64, zone.to_string(), "50", "PT60M".to_string(), 0)).collect()
}

fn day(y: i32, m: u32, d: u32) -> i32 {
    chrono::NaiveDate::from_ymd_opt(y, m, d).unwrap().num_days_from_ce()
}

#[test]
fn zone_results_are_tallied_into_one_batch() {
    let results = vec![
        ("DE-LU".to_string(), Ok(prices("DE-LU", 24))),
        ("AT".to_string(), Ok(Vec::new())),
        ("NL".to_string(), Err(EntsoeError::NoData)),
        ("FR".to_string(), Err(EntsoeError::RateLimited)),
        ("BE".to_string(), Ok(prices("BE", 2))),
    ];
    let (summary, batch) = summarize_zone_results(results);
    assert_eq!(summary.succeeded, 2);
    assert_eq!(summary.no_data, 2);
    assert_eq!(summary.failed, 1);
    assert_eq!(batch.len(), 26);
    assert_eq!(summary.errors, vec!["FR: Rate limited by ENTSOE API (HTTP 429)".to_string()]);
    assert_eq!(final_status(&summary), FetchStatus::Error);
}

#[test]
fn final_status_follows_the_counts() {
    let mut s = FetchSummary::new();
    assert_eq!(final_status(&s), FetchStatus::NoData);
    s.no_data = 3;
    assert_eq!(final_status(&s), FetchStatus::NoData);
    s.succeeded = 1;
    assert_eq!(final_status(&s), FetchStatus::Success);
    s.failed = 1;
    assert_eq!(final_status(&s), FetchStatus::Error);
}

#[test]
fn summaries_merge_additively() {
    let mut a = FetchSummary { succeeded: 1, failed: 2, no_data: 3, total_prices_stored: 4, errors: vec!["a".to_string()] };
    let b = FetchSummary { succeeded: 10, failed: 20, no_data: 30, total_prices_stored: 40, errors: vec!["b".to_string()] };
    a.merge(b);
    assert_eq!((a.succeeded, a.failed, a.no_data, a.total_prices_stored), (11, 22, 33, 44));
    assert_eq!(a.errors, vec!["a".to_string(), "b".to_string()]);
    assert_eq!(error_message(&a.errors), Some("a; b".to_string()));
    assert_eq!(error_message(&Vec::new()), None);
}

#[test]
fn only_zones_without_tomorrow_data_are_refetched() {
    let zones = vec![zone("A"), zone("B"), zone("C")];
    let has = vec![true, false, true];
    assert!(should_fetch_tomorrow(&has));
    assert!(!should_fetch_tomorrow(&vec![true, true]));
    let missing = zones_missing_data(zones, &has);
    assert_eq!(missing.len(), 1);
    assert_eq!(missing[0].zone_code, "B");
    assert_eq!(tomorrow_window(86400 * 3 + 5), (86400 * 4, 86400 * 5));
    assert_eq!(tomorrow_window(-1), (0, 86400));
}

#[test]
fn backfill_finds_the_short_day() {
    let zones = vec!["DE-LU".to_string(), "AT".to_string()];
    let mut counts = Vec::new();
    for d in [day(2025, 7, 1), day(2025, 7, 2), day(2025, 7, 3)] {
        for z in &zones {
            let c = if d == day(2025, 7, 1) && z == "DE-LU" { 20 } else { 24 };
            counts.push(DayCount { day: d, zone_code: z.clone(), count: c });
        }
    }
    let report = find_gaps(day(2025, 7, 1), day(2025, 7, 3), &zones, &counts);
    assert_eq!(report.dates_checked, 3);
    assert_eq!(report.dates_with_gaps, 1);
    assert_eq!(report.gaps.len(), 1);
    assert_eq!(report.gaps[0].day, day(2025, 7, 1));
    assert_eq!(report.gaps[0].zone_code, "DE-LU");
    assert_eq!(report.gaps[0].missing_hours, 4);

    // after the refetch is stored the day holds 24 rows
    counts[0].count = 24;
    let again = find_gaps(day(2025, 7, 1), day(2025, 7, 3), &zones, &counts);
    assert_eq!(again.gaps.len(), 0);
    assert_eq!(again.dates_with_gaps, 0);
}

#[test]
fn backfill_counts_absent_pairs_as_empty() {
    let zones = vec!["NL".to_string()];
    let report = find_gaps(day(2025, 7, 1), day(2025, 7, 2), &zones, &Vec::new());
    assert_eq!(report.gaps.len(), 2);
    assert_eq!(report.gaps[1].missing_hours, 24);
    assert_eq!(find_gaps(day(2025, 7, 2), day(2025, 7, 1), &zones, &Vec::new()).dates_checked, 0);
}

#[test]
fn metric_events_carry_names_and_labels() {
    let e = record_fetch_attempt("AT", "started");
    assert_eq!(e.kind, MetricKind::Counter);
    assert_eq!(e.name, "entsoe_fetch_attempts_total");
    assert_eq!(e.labels[0].key, "zone_code");
    assert_eq!(e.labels[1].value, "started");
    assert_eq!(e.value, 1);
    let pair = record_http_request("GET", "/health", 503, 1500);
    assert_eq!(pair[0].labels[2].value, "503");
    assert_eq!(pair[1].kind, MetricKind::Histogram);
    assert_eq!(pair[1].value, 1500);
    let agg = record_prices_aggregated("AT", 96, 24);
    assert_eq!(agg.labels[1].value, "96");
    assert_eq!(agg.labels[2].value, "24");
    assert_eq!(update_zones_with_tomorrow_data(7).kind, MetricKind::Gauge);
}

#[test]
fn paths_are_normalized_for_labels() {
    assert_eq!(normalize_path("/api/v1/prices/zone/DE-LU"), "/api/v1/prices/zone/:id");
    assert_eq!(normalize_path("/api/v1/prices/country/AT"), "/api/v1/prices/country/:id");
    assert_eq!(normalize_path("/api//v1/zones/"), "/api/v1/zones/");
    assert_eq!(normalize_path(""), "");
    assert_eq!(normalize_path("/health"), "/health");
}

#[test]
fn correlation_id_prefers_the_header() {
    assert_eq!(CorrelationId::from_header(Some("abc"), "fresh".to_string()).0, "abc");
    assert_eq!(CorrelationId::from_header(None, "fresh".to_string()).0, "fresh");
}

#[test]
fn date_range_query_defaults_and_checks() {
    let now = 86400 * 10 + 3600;
    let q = DateRangeQuery { start: None, end: None };
    assert_eq!(q.parse(now).unwrap(), (now - 7 * 86400, 86400 * 12 - 1));
    let q = DateRangeQuery { start: Some("2025-01-02T00:00:00Z".to_string()), end: Some("2025-01-01T00:00:00Z".to_string()) };
    assert!(q.parse(now).is_err());
    let q = DateRangeQuery { start: Some("garbage".to_string()), end: None };
    assert!(q.parse(now).is_err());
}

#[test]
fn fetch_log_completes_once() {
    let mut log = FetchLog::new(None, 0, 172800, 5);
    assert_eq!(log.status, FetchStatus::Pending);
    assert!(log.complete(FetchStatus::Success, 48, None, None, 1200, 9));
    assert_eq!(log.duration_ms, Some(1200));
    assert_eq!(log.fetch_completed_at, Some(9));
    assert!(!log.complete(FetchStatus::Error, 0, None, None, 1, 10));
    assert_eq!(log.status, FetchStatus::Success);
    assert_eq!(FetchStatus::NoData.as_str(), "nodata");
}

#[test]
fn storage_errors_are_classified() {
    assert!(StorageError::PoolError("x".to_string()).is_connection_error());
    assert!(StorageError::DatabaseError { kind: DbFailureKind::Connection, message: String::new() }.is_connection_error());
    assert!(!StorageError::DatabaseError { kind: DbFailureKind::Other, message: String::new() }.is_connection_error());
    assert!(StorageError::NotFound("z".to_string()).is_not_found());
    assert!(!StorageError::QueryError("q".to_string()).is_not_found());
}

#[test]
fn zone_info_copies_registry_fields() {
    let z = zone("AT");
    let info = ZoneInfo::from_zone(&z);
    assert_eq!(info.zone_code, "AT");
    assert_eq!(info.eic_code, "10YAT-APG------L");
    assert!(info.active);
}

#[test]
fn mwh_text_converts_exactly_to_kwh() {
    let p = Price::from_mwh(0, "AT".to_string(), "51.23", "PT60M".to_string(), 0);
    assert_eq!(p.price_kwh.to_string(), "0.05123");
    let p = Price::from_mwh(0, "AT".to_string(), "-12.5", "PT60M".to_string(), 0);
    assert_eq!(p.price_kwh.to_string(), "-0.0125");
    let p = Price::from_mwh(0, "AT".to_string(), "not a number", "PT60M".to_string(), 0);
    assert_eq!(p.price_kwh, Amount::zero());
    let a = Amount { mantissa: 1500, scale: 3 }.normalized();
    assert_eq!(a, Amount { mantissa: 15, scale: 1 });
    assert_eq!(Amount { mantissa: 0, scale: 5 }.normalized(), Amount::zero());
    assert_eq!(Amount { mantissa: 5, scale: 1 }.checked_add(Amount { mantissa: 25, scale: 2 }), Some(Amount { mantissa: 75, scale: 2 }));
    let p = Price::from_mwh(0, "AT".to_string(), "50", "PT60M".to_string(), 0);
    assert_eq!(p.price_kwh, Amount { mantissa: 5, scale: 2 });
}

#[test]
fn acknowledged_zone_counts_as_no_data_and_adds_nothing_to_the_batch() {
    let ack = entsoe_price_fetcher::document::MarketDocument::Acknowledgement(
        entsoe_price_fetcher::document::AcknowledgementMarketDocument {
            xmlns: String::new(),
            reasons: vec![entsoe_price_fetcher::document::Reason { code: "999".to_string(), text: "No matching data".to_string() }],
        },
    );
    let (from_ack, _) = entsoe_price_fetcher::client::parse_response(&ack, "NL", 0).unwrap();
    assert!(from_ack.is_empty());
    let results = vec![("NL".to_string(), Ok(from_ack)), ("AT".to_string(), Ok(prices("AT", 24)))];
    let (summary, batch) = summarize_zone_results(results);
    assert_eq!(summary.no_data, 1);
    assert_eq!(summary.succeeded, 1);
    assert_eq!(batch.len(), 24);
    assert!(batch.iter().all(|p| p.bidding_zone == "AT"));
}
