//! The flags register.

use vstd::prelude::*;

verus! {

/// Set by hardware if last arithmetic operation generated a carry out of the
/// most-significant bit of the result.
pub const CARRY_FLAG: u32 = 0x1;

/// Set by hardware if last result has an even number of 1 bits (only for some operations).
pub const PARITY_FLAG: u32 = 0x4;

/// Set by hardware if last arithmetic operation generated a carry ouf of bit 3 of the
/// result.
pub const AUXILIARY_CARRY_FLAG: u32 = 0x10;

/// Set by hardware if last arithmetic operation resulted in a zero value.
pub const ZERO_FLAG: u32 = 0x40;

/// Set by hardware if last arithmetic operation resulted in a negative value.
pub const SIGN_FLAG: u32 = 0x80;

/// Enable single-step mode for debugging.
pub const TRAP_FLAG: u32 = 0x100;

/// Enable interrupts.
pub const INTERRUPT_FLAG: u32 = 0x200;

/// Determines the order in which strings are processed.
pub const DIRECTION_FLAG: u32 = 0x400;

/// Set by hardware to indicate that the sign bit of the result of the last signed integer
/// operation differs from the source operands.
pub const OVERFLOW_FLAG: u32 = 0x800;

/// The low bit of the I/O Privilege Level field.
pub const IOPL_LOW: u32 = 0x1000;

/// The high bit of the I/O Privilege Level field.
pub const IOPL_HIGH: u32 = 0x2000;

/// Used by `iret` in hardware task switch mode to determine if current task is nested.
pub const NESTED_TASK: u32 = 0x4000;

/// Allows to restart an instruction following an instruction breakpoint.
pub const RESUME_FLAG: u32 = 0x10000;

/// Enable the virtual-8086 mode.
pub const VIRTUAL_8086_MODE: u32 = 0x20000;

/// Every bit that is a flag.
pub const ALL_FLAGS: u32 = 0x37fd5;

/// The EFLAGS register. All bit patterns made of flags are valid
/// representations for this type.
#[derive(PartialEq, Eq, Structural, Debug, Clone, Copy)]
pub struct RFlags {
    bits: u32,
}

impl RFlags {
    /// The flags as bits. No bit is set that is not a flag.
    pub closed spec fn view(&self) -> u32 {
        self.bits
    }

    /// Every flag.
    pub fn all() -> (flags: RFlags)
        ensures
            flags@ == ALL_FLAGS,
    {
        RFlags { bits: ALL_FLAGS }
    }

    /// The flags as bits.
    pub fn bits(&self) -> (bits: u32)
        ensures
            bits == self@,
    {
        self.bits
    }

    /// The flags among `bits`, any other bit dropped.
    pub fn from_bits_truncate(bits: u32) -> (flags: RFlags)
        ensures
            flags@ == bits & ALL_FLAGS,
    {
        RFlags { bits: bits & ALL_FLAGS }
    }

    /// Whether every flag of `other` is set in `self`.
    pub fn contains(&self, other: RFlags) -> (r: bool)
        ensures
            r == (self@ & other@ == other@),
    {
        self.bits & other.bits == other.bits
    }
}

/// The flags that the raw value of the register holds.
///
/// Drops any unknown bits.
pub fn read(raw: u32) -> (flags: RFlags)
    ensures
        flags@ == raw & ALL_FLAGS,
{
    RFlags::from_bits_truncate(raw)
}

/// The raw value that writes `flags` to a register that holds `old_value`:
/// the flags are replaced, the reserved bits kept.
pub fn write(flags: RFlags, old_value: u32) -> (new_value: u32)
    ensures
        new_value == (old_value & !ALL_FLAGS) | flags@,
{
    let reserved = old_value & !(RFlags::all().bits());
    reserved | flags.bits()
}

} // verus!
