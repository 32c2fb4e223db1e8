//! A gate-accurate model of a 16-bit computer, built bottom-up from a single
//! NAND primitive: combinational logic, a ripple-carry arithmetic unit,
//! latches and registers, tiered RAM, and a program counter, followed by a
//! word-level CPU built on the same conventions.

pub mod word;
pub mod gate;
pub mod chip;
pub mod computer;
