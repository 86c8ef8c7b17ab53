//! Instruction-level emulator for the Intel 8086 processor.
//!
//! The crate is organised around three verified pieces: a register file with
//! byte/word aliasing, a pluggable memory model with little-endian byte and
//! word access over 32-bit backing words, and the instruction pipeline
//! (decoder, operand resolver, executor) that drives a fetch-decode-execute
//! loop over a segmented 20-bit address space.

pub mod i8086;
pub mod mem;
