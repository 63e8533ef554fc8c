//! The inline hook engine.
pub mod manager;
pub mod pages;
pub mod trampoline;
