//! The command line, the launch of a target, and what they decide between.
pub mod args;
pub mod meaning;
pub mod mode;
pub mod spawn;
