//! Helpers shared by the pipeline: rounding, deduplication, validation of
//! configured names, and the in-memory cache.

pub mod cache;
pub mod utils;
