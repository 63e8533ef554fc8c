//! Loading a dylib into a running process.
pub mod behaviour;
pub mod bootstrap;
pub mod loading;
pub mod mach;
