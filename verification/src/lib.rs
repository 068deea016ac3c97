//! An 8-bit CPU core: a packed status register and a fetch-decode-execute
//! loop over a small part of the 6502 instruction set.
//!
//! - [`status`] holds the flag register: seven named flags in one byte.
//! - [`opcode`] holds the instruction set and the table that decodes an
//!   opcode byte.
//! - [`cpu`] holds the registers, the program counter and the loop that
//!   runs a program.

pub mod cpu;
pub mod opcode;
pub mod status;
