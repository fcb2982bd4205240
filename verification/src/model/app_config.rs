use vstd::prelude::*;

verus! {

/// Everything the process reads from its configuration, once, at start-up.
#[derive(Debug)]
pub struct AppConfig {
    pub verify: VerifyConfig,
    pub db: DbConfig,
    pub log: LoggingConfig,
}

/// Which store to use and how to reach it.
#[derive(Debug)]
pub struct DbConfig {
    pub driver: String,
    pub connection_string: String,
    pub table_name: String,
    pub max_connections: u32,
}

/// How a verification batch is run.
#[derive(Debug)]
pub struct VerifyConfig {
    /// How many candidates may be probed at the same time.
    pub semaphore: usize,
    /// Timeout of one request, in seconds.
    pub timeout: u64,
    /// The endpoints that are requested through each candidate.
    pub test_urls: Vec<String>,
    /// 0 is fast, 1 standard, 2 detailed; any other value means standard.
    pub verify_level: u32,
}

/// Which log levels are shown on the console.
#[derive(Debug)]
pub struct LoggingConfig {
    pub console_levels: Vec<String>,
}

} // verus!
