//! A verified core for a memory-throughput benchmark harness.
//!
//! The library provides the pieces of the benchmark whose correctness
//! matters: partitioning a buffer into per-thread chunks, the countdown
//! rendezvous protocol, the bulk copy/fill operations, the aggregation of
//! per-worker timings into one elapsed duration, the warmup/measurement
//! trial schedule, and the rendering of byte rates in decimal units.

pub mod barrier;
pub mod chunks;
pub mod fmtbytes;
pub mod ops;
pub mod timing;
pub mod trial;
