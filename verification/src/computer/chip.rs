//! The parts of the word-level computer.

pub mod arithmetic;
pub mod cpu;
pub mod laws;
pub mod memory;
