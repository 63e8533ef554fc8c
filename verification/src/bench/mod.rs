//! What the benchmarks run.
pub mod cold;
pub mod warm;
