//! Telemetry as values: each recorder returns the event to emit, and the
//! embedding application hands it to its metrics backend.

use vstd::prelude::*;
use vstd::string::*;
use crate::text::{decimal, push_decimal};

verus! {

pub const ENTSOE_FETCH_ATTEMPTS_TOTAL: &'static str = "entsoe_fetch_attempts_total";
pub const ENTSOE_FETCH_ERRORS_TOTAL: &'static str = "entsoe_fetch_errors_total";
pub const ENTSOE_FETCH_DURATION_SECONDS: &'static str = "entsoe_fetch_duration_seconds";
pub const ENTSOE_ZONES_WITH_TOMORROW_DATA: &'static str = "entsoe_zones_with_tomorrow_data";
pub const ENTSOE_RATE_LIMIT_WAITS_TOTAL: &'static str = "entsoe_rate_limit_waits_total";
pub const ENTSOE_GAPS_FILLED_TOTAL: &'static str = "entsoe_gaps_filled_total";
pub const ENTSOE_PRICES_AGGREGATED_TOTAL: &'static str = "entsoe_prices_aggregated_total";
pub const HTTP_REQUEST_DURATION_SECONDS: &'static str = "http_request_duration_seconds";
pub const HTTP_REQUESTS_TOTAL: &'static str = "http_requests_total";
pub const DATABASE_QUERY_DURATION_SECONDS: &'static str = "database_query_duration_seconds";
pub const SCHEDULER_JOB_EXECUTIONS_TOTAL: &'static str = "scheduler_job_executions_total";
pub const SCHEDULER_JOB_DURATION_SECONDS: &'static str = "scheduler_job_duration_seconds";

#[derive(Debug, Clone, Copy, PartialEq, Eq, Structural)]
pub enum MetricKind {
    /// Incremented by the value.
    Counter,
    /// Set to the value.
    Gauge,
    /// Records the value, a duration in microseconds.
    Histogram,
}

#[derive(Debug, Clone)]
pub struct Label {
    pub key: String,
    pub value: String,
}

/// One telemetry event.
#[derive(Debug, Clone)]
pub struct MetricEvent {
    pub kind: MetricKind,
    pub name: String,
    pub labels: Vec<Label>,
    pub value: u64,
}

pub open spec fn label_views(labels: Seq<Label>) -> Seq<(Seq<char>, Seq<char>)> {
    labels.map_values(|l: Label| (l.key@, l.value@))
}

impl MetricEvent {
    /// The event as (kind, name, labels, value).
    pub open spec fn view(&self) -> (MetricKind, Seq<char>, Seq<(Seq<char>, Seq<char>)>, u64) {
        (self.kind, self.name@, label_views(self.labels@), self.value)
    }
}

fn label(key: &str, value: &str) -> (r: Label)
    ensures
        r.key@ == key@,
        r.value@ == value@,
{
    Label { key: String::from_str(key), value: String::from_str(value) }
}

fn event(kind: MetricKind, name: &str, labels: Vec<Label>, value: u64) -> (r: MetricEvent)
    ensures
        r.view() == (kind, name@, label_views(labels@), value),
{
    MetricEvent { kind, name: String::from_str(name), labels, value }
}

fn decimal_text(n: u64) -> (r: String)
    ensures
        r@ == decimal(n as nat),
{
    let mut s = String::new();
    push_decimal(&mut s, n);
    s
}

/// One fetch attempt of a zone, by status ("started", "success").
pub fn record_fetch_attempt(zone_code: &str, status: &str) -> (r: MetricEvent)
    ensures
        r.view() == (MetricKind::Counter, ENTSOE_FETCH_ATTEMPTS_TOTAL@, seq![
            ("zone_code"@, zone_code@),
            ("status"@, status@),
        ], 1u64),
{
    let labels = vec![label("zone_code", zone_code), label("status", status)];
    proof {
        assert(label_views(labels@) =~= seq![("zone_code"@, zone_code@), ("status"@, status@)]);
    }
    event(MetricKind::Counter, ENTSOE_FETCH_ATTEMPTS_TOTAL, labels, 1)
}

/// One failed fetch of a zone, by error kind.
pub fn record_fetch_error(zone_code: &str, error_type: &str) -> (r: MetricEvent)
    ensures
        r.view() == (MetricKind::Counter, ENTSOE_FETCH_ERRORS_TOTAL@, seq![
            ("zone_code"@, zone_code@),
            ("error_type"@, error_type@),
        ], 1u64),
{
    let labels = vec![label("zone_code", zone_code), label("error_type", error_type)];
    proof {
        assert(label_views(labels@) =~= seq![("zone_code"@, zone_code@), ("error_type"@, error_type@)]);
    }
    event(MetricKind::Counter, ENTSOE_FETCH_ERRORS_TOTAL, labels, 1)
}

/// How long a zone's fetch took.
pub fn record_fetch_duration(zone_code: &str, duration_micros: u64) -> (r: MetricEvent)
    ensures
        r.view() == (MetricKind::Histogram, ENTSOE_FETCH_DURATION_SECONDS@, seq![
            ("zone_code"@, zone_code@),
        ], duration_micros),
{
    let labels = vec![label("zone_code", zone_code)];
    proof {
        assert(label_views(labels@) =~= seq![("zone_code"@, zone_code@)]);
    }
    event(MetricKind::Histogram, ENTSOE_FETCH_DURATION_SECONDS, labels, duration_micros)
}

/// One served HTTP request: a count and a duration, labelled by method, path and status.
pub fn record_http_request(method: &str, path: &str, status: u16, duration_micros: u64) -> (r: Vec<MetricEvent>)
    ensures
        r@.len() == 2,
        r@[0].view() == (MetricKind::Counter, HTTP_REQUESTS_TOTAL@, seq![
            ("method"@, method@),
            ("path"@, path@),
            ("status"@, decimal(status as nat)),
        ], 1u64),
        r@[1].view() == (MetricKind::Histogram, HTTP_REQUEST_DURATION_SECONDS@, seq![
            ("method"@, method@),
            ("path"@, path@),
            ("status"@, decimal(status as nat)),
        ], duration_micros),
{
    let status_text = decimal_text(status as u64);
    let counted = vec![label("method", method), label("path", path), label("status", status_text.as_str())];
    let timed = vec![label("method", method), label("path", path), label("status", status_text.as_str())];
    proof {
        assert(label_views(counted@) =~= seq![("method"@, method@), ("path"@, path@), ("status"@, decimal(status as nat))]);
        assert(label_views(timed@) =~= seq![("method"@, method@), ("path"@, path@), ("status"@, decimal(status as nat))]);
    }
    let a = event(MetricKind::Counter, HTTP_REQUESTS_TOTAL, counted, 1);
    let b = event(MetricKind::Histogram, HTTP_REQUEST_DURATION_SECONDS, timed, duration_micros);
    vec![a, b]
}

/// How many zones already hold tomorrow's prices.
pub fn update_zones_with_tomorrow_data(count: u64) -> (r: MetricEvent)
    ensures
        r.view() == (MetricKind::Gauge, ENTSOE_ZONES_WITH_TOMORROW_DATA@, Seq::<(Seq<char>, Seq<char>)>::empty(), count),
{
    let labels: Vec<Label> = Vec::new();
    proof {
        assert(label_views(labels@) =~= Seq::<(Seq<char>, Seq<char>)>::empty());
    }
    event(MetricKind::Gauge, ENTSOE_ZONES_WITH_TOMORROW_DATA, labels, count)
}

/// One wait for the request throttle.
pub fn record_rate_limit_wait() -> (r: MetricEvent)
    ensures
        r.view() == (MetricKind::Counter, ENTSOE_RATE_LIMIT_WAITS_TOTAL@, Seq::<(Seq<char>, Seq<char>)>::empty(), 1u64),
{
    let labels: Vec<Label> = Vec::new();
    proof {
        assert(label_views(labels@) =~= Seq::<(Seq<char>, Seq<char>)>::empty());
    }
    event(MetricKind::Counter, ENTSOE_RATE_LIMIT_WAITS_TOTAL, labels, 1)
}

/// Positions of a zone's periods that were carried forward.
pub fn record_gaps_filled(zone_code: &str, count: u64) -> (r: MetricEvent)
    ensures
        r.view() == (MetricKind::Counter, ENTSOE_GAPS_FILLED_TOTAL@, seq![("zone_code"@, zone_code@)], count),
{
    let labels = vec![label("zone_code", zone_code)];
    proof {
        assert(label_views(labels@) =~= seq![("zone_code"@, zone_code@)]);
    }
    event(MetricKind::Counter, ENTSOE_GAPS_FILLED_TOTAL, labels, count)
}

/// One aggregation of sub-hourly prices, with the counts before and after.
pub fn record_prices_aggregated(zone_code: &str, original_count: u64, aggregated_count: u64) -> (r: MetricEvent)
    ensures
        r.view() == (MetricKind::Counter, ENTSOE_PRICES_AGGREGATED_TOTAL@, seq![
            ("zone_code"@, zone_code@),
            ("original"@, decimal(original_count as nat)),
            ("aggregated"@, decimal(aggregated_count as nat)),
        ], 1u64),
{
    let o = decimal_text(original_count);
    let a = decimal_text(aggregated_count);
    let labels = vec![label("zone_code", zone_code), label("original", o.as_str()), label("aggregated", a.as_str())];
    proof {
        assert(label_views(labels@) =~= seq![
            ("zone_code"@, zone_code@),
            ("original"@, decimal(original_count as nat)),
            ("aggregated"@, decimal(aggregated_count as nat)),
        ]);
    }
    event(MetricKind::Counter, ENTSOE_PRICES_AGGREGATED_TOTAL, labels, 1)
}

/// How long a store operation took.
pub fn record_db_query_duration(operation: &str, duration_micros: u64) -> (r: MetricEvent)
    ensures
        r.view() == (MetricKind::Histogram, DATABASE_QUERY_DURATION_SECONDS@, seq![("operation"@, operation@)], duration_micros),
{
    let labels = vec![label("operation", operation)];
    proof {
        assert(label_views(labels@) =~= seq![("operation"@, operation@)]);
    }
    event(MetricKind::Histogram, DATABASE_QUERY_DURATION_SECONDS, labels, duration_micros)
}

/// One run of a scheduled job, by outcome ("success", "failure").
pub fn record_scheduler_job_execution(job_name: &str, status: &str) -> (r: MetricEvent)
    ensures
        r.view() == (MetricKind::Counter, SCHEDULER_JOB_EXECUTIONS_TOTAL@, seq![
            ("job_name"@, job_name@),
            ("status"@, status@),
        ], 1u64),
{
    let labels = vec![label("job_name", job_name), label("status", status)];
    proof {
        assert(label_views(labels@) =~= seq![("job_name"@, job_name@), ("status"@, status@)]);
    }
    event(MetricKind::Counter, SCHEDULER_JOB_EXECUTIONS_TOTAL, labels, 1)
}

/// How long a scheduled job ran.
pub fn record_scheduler_job_duration(job_name: &str, duration_micros: u64) -> (r: MetricEvent)
    ensures
        r.view() == (MetricKind::Histogram, SCHEDULER_JOB_DURATION_SECONDS@, seq![("job_name"@, job_name@)], duration_micros),
{
    let labels = vec![label("job_name", job_name)];
    proof {
        assert(label_views(labels@) =~= seq![("job_name"@, job_name@)]);
    }
    event(MetricKind::Histogram, SCHEDULER_JOB_DURATION_SECONDS, labels, duration_micros)
}

} // verus!
