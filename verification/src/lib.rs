//! Quality evaluation and verification pipeline for a pool of network proxies.
//!
//! Every measured quantity is carried as an integer in a fixed unit, so that
//! all arithmetic is exact: durations are counted in hundredths of a second,
//! and ratios (success rate, stability, score, weights) in millionths, with
//! [`model::ONE`] standing for 1.0.

pub mod common;
pub mod db;
pub mod fetcher;
pub mod model;
pub mod service;
