//! A multi-population genetic-algorithm laboratory.
//!
//! Several cooperating evolutionary search processes ("algos") share one
//! population budget, exchange elite individuals along a directed topology,
//! and each drive a variation method to rewrite one generation into the next.
//!
//! Every quantity that the mathematics treats as a real number is held as a
//! fixed-point integer scaled by [`fixed::SCALE`]: a gene is a numerator over
//! `SCALE` in `[0, 1]`, a score is a non-negative multiple of `1 / SCALE`.
//! This keeps the whole engine inside exact integer arithmetic, so its
//! behaviour is deterministic and fully specified.

pub mod algo;
pub mod algorithms;
pub mod cell;
pub mod dataset;
pub mod errors;
pub mod fixed;
pub mod genalgo;
pub mod genalgomethods;
pub mod lab;
pub mod labmaps;
pub mod rng;
pub mod utils;
