//! User-space dynamic instrumentation for AArch64: instruction relocation, inline hooks,
//! the event ring and its text formats, the probe policy, and the command line.
pub mod arm64;
pub mod bench;
pub mod cli;
pub mod decoding;
pub mod encoding;
pub mod events;
pub mod hook;
pub mod injector;
pub mod probes;
pub mod script;
pub mod text;
