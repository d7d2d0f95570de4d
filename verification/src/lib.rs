//! Frame-pacing statistics over per-frame presentation timings.
//!
//! Frame times are held as whole microseconds, so every metric is a pure
//! integer computation: each result is an exact rational number, returned as
//! a [`ratio::Ratio`]. Callers that need a floating-point figure (for display,
//! or a square root for the standard deviation) divide the two integers at
//! their own boundary.

pub mod ingest;
pub mod ratio;
pub mod report;
pub mod series;
pub mod stats;
