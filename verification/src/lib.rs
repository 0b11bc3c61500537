//! Verified core of a benchmark runner for recursive signature aggregation.
//!
//! A workload is started by a function of [`aggregate`], driven run by run, and
//! ends in a [`record::Record`]: the durations of the runs after the warm-up, and
//! metadata on the topology and the proofs. The library decides what is
//! benchmarked, how often, and what of it is recorded; running the benchmark,
//! taking the time and printing the record are up to the caller.

pub mod aggregate;
pub mod json;
pub mod proof_size;
pub mod record;
pub mod run_loop;
pub mod text;
pub mod topology;
pub mod workload;
