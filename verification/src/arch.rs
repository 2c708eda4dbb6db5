//! Processor-specific parts.

pub mod x86;
