//! Whether interrupts are enabled, and how to mask them for a while.

use vstd::prelude::*;
use crate::arch::x86::registers::rflags::{read, RFlags, INTERRUPT_FLAG};

verus! {

/// Whether the raw value of the flags register has interrupts enabled.
pub open spec fn interrupts_enabled(raw_flags: u32) -> bool {
    raw_flags & INTERRUPT_FLAG != 0
}

/// Returns whether interrupts are enabled, given the raw value of the
/// flags register.
pub fn are_enabled(raw_flags: u32) -> (enabled: bool)
    ensures
        enabled == interrupts_enabled(raw_flags),
{
    let flag = RFlags::from_bits_truncate(INTERRUPT_FLAG);
    let flags = read(raw_flags);
    assert(((raw_flags & 0x37fd5u32) & (0x200u32 & 0x37fd5u32) == (0x200u32 & 0x37fd5u32)) == (
    raw_flags & 0x200u32 != 0)) by (bit_vector);
    flags.contains(flag)
}

/// What is to be done around a section that must not be interrupted.
#[derive(PartialEq, Eq, Structural, Debug, Clone, Copy)]
pub struct Masking {
    /// Disable interrupts before the section.
    pub disable_before: bool,
    /// Enable interrupts after the section.
    pub enable_after: bool,
}

/// Plans a section with disabled interrupts, given the raw value of the
/// flags register before it.
///
/// Interrupts are disabled before the section if they aren't already
/// disabled. Afterwards they are enabled again if they were enabled
/// before.
pub fn without_interrupts(raw_flags: u32) -> (masking: Masking)
    ensures
        masking.disable_before == interrupts_enabled(raw_flags),
        masking.enable_after == interrupts_enabled(raw_flags),
{
    let saved_intpt_flag = are_enabled(raw_flags);
    Masking { disable_before: saved_intpt_flag, enable_after: saved_intpt_flag }
}

} // verus!
