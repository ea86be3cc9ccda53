//! Day-ahead electricity price ingestion: normalisation of market documents,
//! request planning with rate limiting and retry, fetch summaries, gap
//! detection for backfills, and the telemetry events these emit.

pub mod backfill;
pub mod client;
pub mod config;
pub mod document;
pub mod dto;
pub mod error;
pub mod fetcher;
pub mod metrics;
pub mod middleware;
pub mod models;
pub mod money;
pub mod normalizer;
pub mod text;
pub mod time;
pub mod validation;
