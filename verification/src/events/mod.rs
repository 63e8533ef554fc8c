//! Events: how they are captured, queued, filtered and written out.
pub mod document;
pub mod filter;
pub mod format;
pub mod handlers;
pub mod json;
pub mod queue;
pub mod reading;
pub mod size;
pub mod slot;
