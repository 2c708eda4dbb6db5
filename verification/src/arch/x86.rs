//! The 32-bit x86 processor and its interrupt controller.

pub mod instructions;
pub mod pic_8259;
pub mod registers;
pub mod structures;
