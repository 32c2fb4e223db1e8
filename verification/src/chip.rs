//! Chips composed from the primitive gates.

pub mod arithmetic;
pub mod laws;
pub mod memory;
