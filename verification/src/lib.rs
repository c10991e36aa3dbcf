//! Core of a handheld-console CPU emulator: a fetch-decode-execute cycle for
//! a 32-bit RISC instruction subset, condition-code-gated execution, an ALU
//! with status-flag computation, and a memory map that routes byte and word
//! accesses to working RAM, on-chip RAM, or cartridge ROM.

pub mod bit_utils;
pub mod bus;
pub mod cpu;
pub mod isa;
