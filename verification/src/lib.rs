//! Frequency-stability measurement of a free-running cycle counter against a
//! monotonic reference clock.
//!
//! The crate holds the decisions and the arithmetic: how a counter is
//! calibrated, when a phase-error sample is due and what it is worth, and how
//! the stream of samples turns into Allan variances over a ladder of averaging
//! intervals. Reading the counter and the clock, and printing, are left to the
//! caller; every value crossing that boundary is an integer, a `bool` or a
//! `String`.
pub mod calibrate;
pub mod counter;
pub mod deviation;
pub mod engine;
pub mod ladder;
pub mod laws;
pub mod logger;
pub mod sampler;
pub mod series;
