//! Console subsystem of a small x86 kernel: scrollable text screens backed by
//! a bounded scrollback ring, a multiplexer that selects the visible screen,
//! and the pure parts of the interrupt and keyboard layers that feed it.

pub mod arch;
pub mod bootinfo;
pub mod interrupts;
pub mod keyboard;
pub mod vga;
