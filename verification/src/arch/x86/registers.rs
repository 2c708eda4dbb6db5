//! Processor registers.

pub mod rflags;
