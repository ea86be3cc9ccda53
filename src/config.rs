//! Settings of the service, as plain values.

use vstd::prelude::*;

verus! {

#[derive(Debug, Clone)]
pub struct ServerConfig {
    pub host: String,
    pub port: u16,
}

#[derive(Debug, Clone)]
pub struct DatabaseConfig {
    pub url: String,
    pub max_connections: u32,
    pub min_connections: u32,
    pub connect_timeout_seconds: u64,
}

#[derive(Debug, Clone)]
pub struct EntsoeConfig {
    pub security_token: String,
    pub base_url: String,
    pub rate_limit_per_minute: u32,
    pub timeout_seconds: u64,
}

#[derive(Debug, Clone)]
pub struct SchedulerConfig {
    pub enabled: bool,
    pub fetch_times_cet: Vec<String>,
}

#[derive(Debug, Clone)]
pub struct AppConfig {
    pub server: ServerConfig,
    pub database: DatabaseConfig,
    pub entsoe: EntsoeConfig,
    pub scheduler: SchedulerConfig,
}

} // verus!
