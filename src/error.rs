//! Errors of the market-data client and of the store.

use vstd::prelude::*;
use vstd::string::*;

verus! {

/// Why fetching or normalising a market document failed.
#[derive(Debug, Clone)]
pub enum EntsoeError {
    /// The market reported that it holds no data for the window.
    NoData,
    /// HTTP 429.
    RateLimited,
    /// HTTP 5xx, with the response body.
    TemporaryUnavailable(String),
    /// The body is neither a publication nor an acknowledgement.
    XmlParseError(String),
    /// An unexpected status, an acknowledgement without data, or an unusable zone.
    InvalidResponse(String),
    /// The transport failed, with its message.
    HttpError(String),
    InvalidResolution(String),
    TimestampParseError(String),
    /// A period lacks position 1, so nothing can be carried forward.
    MissingFirstPeriod,
    /// A period declares more points than positions can address.
    PeriodCountMismatch { expected: u64, limit: u64 },
    /// Local midnight of the requested day is not a single instant in the zone.
    AmbiguousLocalTime(String),
}

impl EntsoeError {
    pub open spec fn is_transient_spec(&self) -> bool {
        self is RateLimited || self is TemporaryUnavailable
    }

    /// Transient errors are retried; all others end the attempt sequence.
    pub fn is_transient(&self) -> (r: bool)
        ensures
            r == self.is_transient_spec(),
    {
        match self {
            EntsoeError::RateLimited => true,
            EntsoeError::TemporaryUnavailable(_) => true,
            _ => false,
        }
    }

    /// The label under which the error is counted.
    pub fn kind_label(&self) -> (r: &'static str)
        ensures
            self is RateLimited ==> r@ == "rate_limited"@,
            self is TemporaryUnavailable ==> r@ == "temporary"@,
            self is InvalidResponse ==> r@ == "invalid_response"@,
            self is XmlParseError ==> r@ == "parse_error"@,
            self is NoData ==> r@ == "no_data"@,
            self is HttpError ==> r@ == "http_error"@,
            self is InvalidResolution ==> r@ == "invalid_resolution"@,
            self is TimestampParseError ==> r@ == "timestamp_parse_error"@,
            self is MissingFirstPeriod ==> r@ == "missing_first_period"@,
            self is PeriodCountMismatch ==> r@ == "period_count_mismatch"@,
            self is AmbiguousLocalTime ==> r@ == "ambiguous_local_time"@,
    {
        match self {
            EntsoeError::NoData => "no_data",
            EntsoeError::RateLimited => "rate_limited",
            EntsoeError::TemporaryUnavailable(_) => "temporary",
            EntsoeError::XmlParseError(_) => "parse_error",
            EntsoeError::InvalidResponse(_) => "invalid_response",
            EntsoeError::HttpError(_) => "http_error",
            EntsoeError::InvalidResolution(_) => "invalid_resolution",
            EntsoeError::TimestampParseError(_) => "timestamp_parse_error",
            EntsoeError::MissingFirstPeriod => "missing_first_period",
            EntsoeError::PeriodCountMismatch { .. } => "period_count_mismatch",
            EntsoeError::AmbiguousLocalTime(_) => "ambiguous_local_time",
        }
    }

    /// The one-line description of the error.
    pub open spec fn text(&self) -> Seq<char> {
        match self {
            EntsoeError::NoData => "No data available for the requested period (code 999)"@,
            EntsoeError::RateLimited => "Rate limited by ENTSOE API (HTTP 429)"@,
            EntsoeError::TemporaryUnavailable(m) => "ENTSOE API temporarily unavailable: "@ + m@,
            EntsoeError::XmlParseError(m) => "Failed to parse XML response: "@ + m@,
            EntsoeError::InvalidResponse(m) => "Invalid response structure: "@ + m@,
            EntsoeError::HttpError(m) => "HTTP request failed: "@ + m@,
            EntsoeError::InvalidResolution(m) => "Invalid resolution format: "@ + m@,
            EntsoeError::TimestampParseError(m) => "Failed to parse timestamp: "@ + m@,
            EntsoeError::MissingFirstPeriod => "Period is missing position 1"@,
            EntsoeError::PeriodCountMismatch { .. } => "Period declares more points than can be addressed"@,
            EntsoeError::AmbiguousLocalTime(m) => "Local midnight is not a single instant: "@ + m@,
        }
    }

    /// A one-line description of the error.
    pub fn message(&self) -> (r: String)
        ensures
            r@ == self.text(),
    {
        let (head, detail): (&str, Option<&String>) = match self {
            EntsoeError::NoData => ("No data available for the requested period (code 999)", None),
            EntsoeError::RateLimited => ("Rate limited by ENTSOE API (HTTP 429)", None),
            EntsoeError::TemporaryUnavailable(m) => ("ENTSOE API temporarily unavailable: ", Some(m)),
            EntsoeError::XmlParseError(m) => ("Failed to parse XML response: ", Some(m)),
            EntsoeError::InvalidResponse(m) => ("Invalid response structure: ", Some(m)),
            EntsoeError::HttpError(m) => ("HTTP request failed: ", Some(m)),
            EntsoeError::InvalidResolution(m) => ("Invalid resolution format: ", Some(m)),
            EntsoeError::TimestampParseError(m) => ("Failed to parse timestamp: ", Some(m)),
            EntsoeError::MissingFirstPeriod => ("Period is missing position 1", None),
            EntsoeError::PeriodCountMismatch { .. } => ("Period declares more points than can be addressed", None),
            EntsoeError::AmbiguousLocalTime(m) => ("Local midnight is not a single instant: ", Some(m)),
        };
        let mut out = String::from_str(head);
        match detail {
            Some(m) => out.append(m.as_str()),
            None => {
                assert(out@ == out@ + Seq::<char>::empty());
            },
        }
        out
    }
}

/// How a database failure is classified.
#[derive(Debug, Clone, Copy, PartialEq, Eq, Structural)]
pub enum DbFailureKind {
    /// The pool timed out or was closed, or the connection failed.
    Connection,
    /// Any other failure of the driver.
    Other,
}

/// Why a store operation failed.
#[derive(Debug, Clone)]
pub enum StorageError {
    DatabaseError { kind: DbFailureKind, message: String },
    PoolError(String),
    QueryError(String),
    NotFound(String),
    InvalidInput(String),
}

impl StorageError {
    /// Connection-level failures: these surface as "service unavailable".
    pub fn is_connection_error(&self) -> (r: bool)
        ensures
            r == (self is PoolError || (self matches StorageError::DatabaseError { kind, .. }
                && kind == DbFailureKind::Connection)),
    {
        match self {
            StorageError::DatabaseError { kind, .. } => *kind == DbFailureKind::Connection,
            StorageError::PoolError(_) => true,
            _ => false,
        }
    }

    pub fn is_not_found(&self) -> (r: bool)
        ensures
            r == (self is NotFound),
    {
        match self {
            StorageError::NotFound(_) => true,
            _ => false,
        }
    }
}

} // verus!
