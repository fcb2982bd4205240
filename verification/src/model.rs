//! The data that flows through the pipeline: candidates, quality records and
//! the configuration that is loaded once at start-up.

pub mod app_config;
pub mod proxy;

pub use app_config::{AppConfig, DbConfig, LoggingConfig, VerifyConfig};
pub use proxy::{Proxy, ProxyBasic, ProxyCheckResult, ONE};
