//! Trampolines: stolen prologue instructions moved elsewhere, and what runs round them.
pub mod allocator;
pub mod behaviour;
pub mod builder;
pub mod disasm;
pub mod relocator;
pub mod thunk;
