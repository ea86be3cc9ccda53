//! Domain records: hourly prices, bidding zones and the fetch log.

use vstd::prelude::*;
use vstd::string::*;
use crate::money::{Amount, kwh_of_text};

verus! {

/// One price of one bidding zone at one instant.
#[derive(Debug, Clone)]
pub struct Price {
    /// Seconds since the Unix epoch, UTC.
    pub timestamp: i64,
    pub bidding_zone: String,
    /// EUR per kWh.
    pub price_kwh: Amount,
    pub currency: String,
    /// ISO 8601 duration between consecutive points, `PT60M` once normalised.
    pub resolution: String,
    /// Seconds since the Unix epoch at which the price was fetched.
    pub fetched_at: i64,
}

pub open spec fn eur() -> Seq<char> {
    seq!['E', 'U', 'R']
}

impl Price {
    pub open spec fn wf(&self) -> bool {
        self.price_kwh.wf()
    }

    /// A price from the text of a price per MWh, converted to EUR per kWh
    /// (zero where the text is not a decimal).
    pub fn from_mwh(
        timestamp: i64,
        bidding_zone: String,
        price_mwh: &str,
        resolution: String,
        fetched_at: i64,
    ) -> (r: Price)
        ensures
            r.wf(),
            r.timestamp == timestamp,
            r.bidding_zone@ == bidding_zone@,
            r.price_kwh == kwh_of_text(price_mwh@),
            r.currency@ == eur(),
            r.resolution@ == resolution@,
            r.fetched_at == fetched_at,
    {
        let price_kwh = match Amount::parse(price_mwh) {
            Some(mwh) => mwh.mwh_to_kwh(),
            None => Amount::zero(),
        };
        proof {
            reveal_strlit("EUR");
        }
        Price {
            timestamp,
            bidding_zone,
            price_kwh,
            currency: String::from_str("EUR"),
            resolution,
            fetched_at,
        }
    }
}

/// A market area with one spot price.
#[derive(Debug, Clone)]
pub struct BiddingZone {
    pub zone_code: String,
    pub zone_name: String,
    pub country_code: String,
    pub country_name: String,
    /// 16-character Energy Identification Code used in requests.
    pub eic_code: String,
    /// IANA time-zone name.
    pub timezone: String,
    pub active: bool,
    pub created_at: i64,
    pub updated_at: i64,
}

/// Lifecycle state of a fetch-log row.
#[derive(Debug, Clone, Copy, PartialEq, Eq, Structural)]
pub enum FetchStatus {
    Pending,
    Success,
    NoData,
    Error,
    RateLimited,
}

impl FetchStatus {
    /// The text stored for the status.
    pub fn as_str(&self) -> (r: &'static str)
        ensures
            r@ == match self {
                FetchStatus::Pending => "pending"@,
                FetchStatus::Success => "success"@,
                FetchStatus::NoData => "nodata"@,
                FetchStatus::Error => "error"@,
                FetchStatus::RateLimited => "ratelimited"@,
            },
    {
        match self {
            FetchStatus::Pending => "pending",
            FetchStatus::Success => "success",
            FetchStatus::NoData => "nodata",
            FetchStatus::Error => "error",
            FetchStatus::RateLimited => "ratelimited",
        }
    }
}

/// One fetch cycle: opened as pending, completed once.
#[derive(Debug, Clone)]
pub struct FetchLog {
    pub id: i64,
    pub fetch_started_at: i64,
    pub fetch_completed_at: Option<i64>,
    /// `None` for a batch over several zones.
    pub bidding_zone: Option<String>,
    pub period_start: i64,
    pub period_end: i64,
    pub status: FetchStatus,
    pub records_inserted: Option<i32>,
    pub error_message: Option<String>,
    pub http_status: Option<i32>,
    pub duration_ms: Option<i32>,
}

impl FetchLog {
    /// A row is pending with nothing recorded, or terminal with its completion
    /// time and duration.
    pub open spec fn wf(&self) -> bool {
        if self.status == FetchStatus::Pending {
            self.fetch_completed_at is None && self.duration_ms is None
                && self.records_inserted is None
        } else {
            self.fetch_completed_at is Some && self.duration_ms is Some
        }
    }

    pub fn new(bidding_zone: Option<String>, period_start: i64, period_end: i64, started_at: i64) -> (r: FetchLog)
        ensures
            r.wf(),
            r.status == FetchStatus::Pending,
            r.id == 0,
            r.fetch_started_at == started_at,
            r.bidding_zone == bidding_zone,
            r.period_start == period_start,
            r.period_end == period_end,
            r.error_message is None,
            r.http_status is None,
    {
        FetchLog {
            id: 0,
            fetch_started_at: started_at,
            fetch_completed_at: None,
            bidding_zone,
            period_start,
            period_end,
            status: FetchStatus::Pending,
            records_inserted: None,
            error_message: None,
            http_status: None,
            duration_ms: None,
        }
    }

    /// Moves a pending row to a terminal status; a row that is not pending, or a
    /// terminal status of `Pending`, is left as it is and `false` returned.
    pub fn complete(
        &mut self,
        status: FetchStatus,
        records_inserted: i32,
        error_message: Option<String>,
        http_status: Option<i32>,
        duration_ms: i32,
        completed_at: i64,
    ) -> (r: bool)
        requires
            old(self).wf(),
        ensures
            final(self).wf(),
            r == (old(self).status == FetchStatus::Pending && status != FetchStatus::Pending),
            r ==> final(self).status == status && final(self).records_inserted == Some(records_inserted)
                && final(self).error_message == error_message && final(self).http_status == http_status
                && final(self).duration_ms == Some(duration_ms) && final(self).fetch_completed_at == Some(
                completed_at,
            ) && final(self).id == old(self).id && final(self).period_start == old(self).period_start
                && final(self).period_end == old(self).period_end,
            !r ==> *final(self) == *old(self),
    {
        if self.status != FetchStatus::Pending || status == FetchStatus::Pending {
            return false;
        }
        self.status = status;
        self.records_inserted = Some(records_inserted);
        self.error_message = error_message;
        self.http_status = http_status;
        self.duration_ms = Some(duration_ms);
        self.fetch_completed_at = Some(completed_at);
        true
    }
}

/// Sizes of the store's connection pool.
#[derive(Debug, Clone, Copy, PartialEq, Eq, Structural)]
pub struct PoolStatus {
    pub active_connections: u32,
    pub idle_connections: u32,
    pub max_connections: u32,
}

} // verus!
