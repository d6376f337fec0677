//! Parsing of memory addresses under a 32-bit or a 64-bit addressing mode,
//! as a physical-memory-protection address register would hold them.
pub mod mode;
pub mod address;
pub mod display;
pub mod state;
