//! What single instructions are given and what they yield.

pub mod interrupts;
pub mod port;
