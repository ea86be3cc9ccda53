use chrono::{DateTime, Timelike, Utc};
use entsoe_price_fetcher::document::{parse_resolution, Period, Point, TimeInterval};
use entsoe_price_fetcher::error::EntsoeError;
use entsoe_price_fetcher::models::Price;
use entsoe_price_fetcher::time::parse_timestamp;
use entsoe_price_fetcher::validation::{aggregate_to_hourly, expected_period_count, forward_fill, validate_and_fill_period};

fn create_period(start: &str, end: &str, resolution: &str, points: Vec<(u32, f64)>) -> Period {
    Period {
        time_interval: TimeInterval { start: start.to_string(), end: end.to_string() },
        resolution: resolution.to_string(),
        points: points
            .into_iter()
            .map(|(pos, price)| Point { position: pos, price_amount: price.to_string() })
            .collect(),
    }
}

fn ts(text: &str) -> i64 {
    DateTime::parse_from_rfc3339(text).unwrap().with_timezone(&Utc).timestamp()
}

fn hour_of(seconds: i64) -> u32 {
    DateTime::from_timestamp(seconds, 0).unwrap().hour()
}

fn minute_of(seconds: i64) -> u32 {
    DateTime::from_timestamp(seconds, 0).unwrap().minute()
}

#[test]
fn test_expected_period_count_pt60m() {
    let start = parse_timestamp("2025-12-30T23:00:00Z").unwrap();
    let end = parse_timestamp("2025-12-31T23:00:00Z").unwrap();
    assert_eq!(expected_period_count(start, end, 60 * 60), 24);
}

#[test]
fn test_expected_period_count_pt15m() {
    let start = parse_timestamp("2025-12-30T23:00:00Z").unwrap();
    let end = parse_timestamp("2025-12-31T23:00:00Z").unwrap();
    assert_eq!(expected_period_count(start, end, 15 * 60), 96);
}

#[test]
fn test_expected_period_count_pt30m() {
    let start = parse_timestamp("2025-12-30T23:00:00Z").unwrap();
    let end = parse_timestamp("2025-12-31T23:00:00Z").unwrap();
    assert_eq!(expected_period_count(start, end, 30 * 60), 48);
}

#[test]
fn expected_period_count_is_zero_for_reversed_or_short_interval() {
    let start = ts("2025-12-31T00:00:00Z");
    assert_eq!(expected_period_count(start, start, 3600), 0);
    assert_eq!(expected_period_count(start, start - 3600, 3600), 0);
    assert_eq!(expected_period_count(start, start + 3599, 3600), 0);
    assert_eq!(expected_period_count(start, start + 7199, 3600), 1);
}

#[test]
fn test_validate_complete_period() {
    let points: Vec<(u32, f64)> = (1..=24).map(|i| (i, 50.0 + i as f64)).collect();
    let period = create_period("2025-12-30T23:00:00Z", "2025-12-31T23:00:00Z", "PT60M", points);

    let prices = validate_and_fill_period(&period, "DE-LU", 0).unwrap();
    assert_eq!(prices.len(), 24);
    assert_eq!(prices[0].price_kwh.to_string(), "0.051");
    assert_eq!(prices[23].price_kwh.to_string(), "0.074");
}

#[test]
fn complete_day_has_hourly_offsets_and_pt60m() {
    let points: Vec<(u32, f64)> = (1..=24).map(|i| (i, 50.0 + i as f64)).collect();
    let period = create_period("2025-12-30T23:00:00Z", "2025-12-31T23:00:00Z", "PT60M", points);
    let prices = validate_and_fill_period(&period, "DE-LU", 0).unwrap();
    let start = ts("2025-12-30T23:00:00Z");
    for (i, p) in prices.iter().enumerate() {
        assert_eq!(p.timestamp, start + 3600 * i as i64);
        assert_eq!(p.resolution, "PT60M");
        assert_eq!(p.currency, "EUR");
        assert_eq!(p.bidding_zone, "DE-LU");
    }
}

#[test]
fn test_validate_period_with_gap_forward_fill() {
    let points = vec![(1, 50.0), (2, 55.0), (4, 60.0), (5, 65.0)];
    let period = create_period("2025-12-31T00:00:00Z", "2025-12-31T05:00:00Z", "PT60M", points);

    let prices = validate_and_fill_period(&period, "DE-LU", 0).unwrap();
    assert_eq!(prices.len(), 5);
    assert_eq!(prices[2].price_kwh.to_string(), "0.055");
}

#[test]
fn test_validate_period_with_multiple_gaps() {
    let points = vec![(1, 50.0), (4, 60.0), (6, 70.0)];
    let period = create_period("2025-12-31T00:00:00Z", "2025-12-31T06:00:00Z", "PT60M", points);

    let prices = validate_and_fill_period(&period, "DE-LU", 0).unwrap();
    assert_eq!(prices.len(), 6);
    assert_eq!(prices[1].price_kwh.to_string(), "0.05");
    assert_eq!(prices[2].price_kwh.to_string(), "0.05");
    assert_eq!(prices[4].price_kwh.to_string(), "0.06");
}

#[test]
fn forward_fill_counts_carried_positions() {
    let points = vec![(1, 50.0), (4, 60.0), (6, 70.0)];
    let period = create_period("2025-12-31T00:00:00Z", "2025-12-31T06:00:00Z", "PT60M", points);
    let (prices, gaps) = forward_fill(&period, "DE-LU", 0).unwrap();
    assert_eq!(prices.len(), 6);
    assert_eq!(gaps, 3);
}

#[test]
fn forward_fill_emits_every_expected_position_for_any_subset() {
    // position 1 present, later positions sparse, a position beyond the window ignored
    let points = vec![(1, 10.0), (7, 20.0), (30, 99.0)];
    let period = create_period("2025-12-31T00:00:00Z", "2025-12-31T12:00:00Z", "PT60M", points);
    let (prices, gaps) = forward_fill(&period, "NL", 0).unwrap();
    assert_eq!(prices.len(), 12);
    assert_eq!(gaps, 10);
    assert_eq!(prices[5].price_kwh.to_string(), "0.01");
    assert_eq!(prices[6].price_kwh.to_string(), "0.02");
    assert_eq!(prices[11].price_kwh.to_string(), "0.02");
}

#[test]
fn test_validate_period_missing_first_position_error() {
    let points = vec![(2, 55.0), (3, 60.0)];
    let period = create_period("2025-12-31T00:00:00Z", "2025-12-31T03:00:00Z", "PT60M", points);

    let result = validate_and_fill_period(&period, "DE-LU", 0);
    assert!(matches!(result, Err(EntsoeError::MissingFirstPeriod)));
}

#[test]
fn empty_interval_yields_no_prices_even_without_points() {
    let period = create_period("2025-12-31T00:00:00Z", "2025-12-31T00:00:00Z", "PT60M", vec![]);
    let prices = validate_and_fill_period(&period, "DE-LU", 0).unwrap();
    assert!(prices.is_empty());
}

#[test]
fn unreadable_timestamp_and_resolution_are_reported() {
    let period = create_period("yesterday", "2025-12-31T03:00:00Z", "PT60M", vec![(1, 1.0)]);
    assert!(matches!(validate_and_fill_period(&period, "AT", 0), Err(EntsoeError::TimestampParseError(_))));
    // the start is read first, before the resolution
    let period = create_period("yesterday", "2025-12-31T03:00:00Z", "PT0M", vec![(1, 1.0)]);
    match validate_and_fill_period(&period, "AT", 0) {
        Err(EntsoeError::TimestampParseError(m)) => assert_eq!(m, "yesterday"),
        other => panic!("unexpected {:?}", other),
    }
    let period = create_period("2025-12-31T00:00:00Z", "2025-12-31T03:00:00Z", "PT0M", vec![(1, 1.0)]);
    assert!(matches!(validate_and_fill_period(&period, "AT", 0), Err(EntsoeError::InvalidResolution(_))));
}

#[test]
fn test_validate_period_pt15m_aggregated_to_hourly() {
    let points: Vec<(u32, f64)> = (1..=16).map(|i| (i, 40.0 + i as f64)).collect();
    let period = create_period("2025-12-31T00:00:00Z", "2025-12-31T04:00:00Z", "PT15M", points);

    let prices = validate_and_fill_period(&period, "AT", 0).unwrap();

    assert_eq!(prices.len(), 4);
    assert_eq!(prices[0].resolution, "PT60M");

    assert_eq!(hour_of(prices[0].timestamp), 0);
    assert_eq!(hour_of(prices[1].timestamp), 1);
    assert_eq!(hour_of(prices[2].timestamp), 2);
    assert_eq!(hour_of(prices[3].timestamp), 3);

    assert!(prices[0].price_kwh.to_string().starts_with("0.0425"));
    assert!(prices[1].price_kwh.to_string().starts_with("0.0465"));
    assert!(prices[2].price_kwh.to_string().starts_with("0.0505"));
    assert!(prices[3].price_kwh.to_string().starts_with("0.0545"));
}

#[test]
fn test_validate_period_pt30m_aggregated_to_hourly() {
    let points: Vec<(u32, f64)> = (1..=8).map(|i| (i, 30.0 + i as f64)).collect();
    let period = create_period("2025-12-31T00:00:00Z", "2025-12-31T04:00:00Z", "PT30M", points);

    let prices = validate_and_fill_period(&period, "NL", 0).unwrap();

    assert_eq!(prices.len(), 4);
    assert_eq!(prices[0].resolution, "PT60M");
    assert!(prices[0].price_kwh.to_string().starts_with("0.0315"));
    assert!(prices[1].price_kwh.to_string().starts_with("0.0335"));
}

#[test]
fn test_aggregate_to_hourly_pt60m_passthrough() {
    let prices = vec![
        Price::from_mwh(ts("2025-12-31T00:00:00Z"), "DE-LU".to_string(), &50.0f64.to_string(), "PT60M".to_string(), 0),
        Price::from_mwh(ts("2025-12-31T01:00:00Z"), "DE-LU".to_string(), &55.0f64.to_string(), "PT60M".to_string(), 0),
    ];

    let result = aggregate_to_hourly(prices.clone(), "DE-LU");
    assert_eq!(result.len(), 2);
    assert_eq!(result[0].price_kwh, prices[0].price_kwh);
    assert_eq!(result[1].price_kwh, prices[1].price_kwh);
}

#[test]
fn test_aggregate_to_hourly_empty() {
    let prices: Vec<Price> = vec![];
    let result = aggregate_to_hourly(prices, "DE-LU");
    assert!(result.is_empty());
}

#[test]
fn test_aggregate_to_hourly_pt15m_single_hour() {
    let prices = vec![
        Price::from_mwh(ts("2025-12-31T00:00:00Z"), "AT".to_string(), &50.0f64.to_string(), "PT15M".to_string(), 0),
        Price::from_mwh(ts("2025-12-31T00:15:00Z"), "AT".to_string(), &52.0f64.to_string(), "PT15M".to_string(), 0),
        Price::from_mwh(ts("2025-12-31T00:30:00Z"), "AT".to_string(), &48.0f64.to_string(), "PT15M".to_string(), 0),
        Price::from_mwh(ts("2025-12-31T00:45:00Z"), "AT".to_string(), &54.0f64.to_string(), "PT15M".to_string(), 0),
    ];

    let result = aggregate_to_hourly(prices, "AT");

    assert_eq!(result.len(), 1);
    assert_eq!(result[0].resolution, "PT60M");
    assert_eq!(hour_of(result[0].timestamp), 0);
    assert_eq!(minute_of(result[0].timestamp), 0);
    assert_eq!(result[0].price_kwh.to_string(), "0.051");
}

#[test]
fn aggregation_orders_hours_and_keeps_first_fetch_time() {
    // out of order input across two hours
    let prices = vec![
        Price::from_mwh(ts("2025-12-31T01:30:00Z"), "AT".to_string(), "40", "PT30M".to_string(), 7),
        Price::from_mwh(ts("2025-12-31T00:00:00Z"), "AT".to_string(), "10", "PT30M".to_string(), 5),
        Price::from_mwh(ts("2025-12-31T01:00:00Z"), "AT".to_string(), "20", "PT30M".to_string(), 9),
        Price::from_mwh(ts("2025-12-31T00:30:00Z"), "AT".to_string(), "30", "PT30M".to_string(), 3),
    ];
    let result = aggregate_to_hourly(prices, "AT");
    assert_eq!(result.len(), 2);
    assert_eq!(result[0].timestamp, ts("2025-12-31T00:00:00Z"));
    assert_eq!(result[1].timestamp, ts("2025-12-31T01:00:00Z"));
    assert_eq!(result[0].price_kwh.to_string(), "0.02");
    assert_eq!(result[1].price_kwh.to_string(), "0.03");
    assert_eq!(result[0].fetched_at, 5);
    assert_eq!(result[1].fetched_at, 7);
}

#[test]
fn test_parse_resolution_15m() {
    assert_eq!(parse_resolution("PT15M").unwrap(), 15 * 60);
}

#[test]
fn test_parse_resolution_60m() {
    assert_eq!(parse_resolution("PT60M").unwrap(), 60 * 60);
}

#[test]
fn test_parse_resolution_1h() {
    assert_eq!(parse_resolution("PT1H").unwrap(), 60 * 60);
}

#[test]
fn test_parse_resolution_invalid() {
    assert!(parse_resolution("invalid").is_err());
}

#[test]
fn resolution_literals_and_parsed_durations() {
    assert_eq!(parse_resolution("PT30M").unwrap(), 1800);
    assert_eq!(parse_resolution("P1D").unwrap(), 86400);
    assert_eq!(parse_resolution("P7D").unwrap(), 604800);
    assert_eq!(parse_resolution("P1Y").unwrap(), 31536000);
    assert_eq!(parse_resolution("PT5M").unwrap(), 300);
    assert_eq!(parse_resolution("PT1H30M").unwrap(), 5400);
    assert_eq!(parse_resolution("P2D").unwrap(), 172800);
    assert_eq!(parse_resolution("P1W").unwrap(), 604800);
    assert_eq!(parse_resolution("PT90S").unwrap(), 90);
    assert!(matches!(parse_resolution("PT0M"), Err(EntsoeError::InvalidResolution(_))));
    assert!(matches!(parse_resolution("P1M"), Err(EntsoeError::InvalidResolution(_))));
}

#[test]
fn timestamp_without_seconds_parses_as_zero_seconds() {
    assert_eq!(parse_timestamp("2025-12-31T23:00Z").unwrap(), ts("2025-12-31T23:00:00Z"));
    assert_eq!(parse_timestamp("2025-12-31T23:00:00Z").unwrap(), ts("2025-12-31T23:00:00Z"));
    assert!(matches!(parse_timestamp("2025-12-31 23:00"), Err(EntsoeError::TimestampParseError(_))));
}

#[test]
fn period_with_more_points_than_positions_is_refused() {
    let period = create_period("0001-01-01T00:00:00Z", "9999-12-31T00:00:00Z", "PT1S", vec![(1, 1.0)]);
    assert!(matches!(
        validate_and_fill_period(&period, "AT", 0),
        Err(EntsoeError::PeriodCountMismatch { limit: 4294967295, .. })
    ));
}
