//! Tables that the processor reads.

pub mod idt;
