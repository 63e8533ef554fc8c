//! Probes: what they may hold, and how they are compiled.
pub mod compiler;
pub mod framing;
pub mod harness;
pub mod policy;
