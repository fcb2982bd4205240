//! The pipeline itself: probing with retries, aggregation, scoring and the
//! scheduling of a verification batch.

pub mod quality;
pub mod retry;
pub mod scheduler;
pub mod serving;
