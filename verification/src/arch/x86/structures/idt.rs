//! The interrupt descriptor table: its entries and what they hold.

use vstd::prelude::*;
use bit_field::BitField;
use core::marker::PhantomData;
use vstd::std_specs::cmp::PartialEqSpec;

verus! {

/// Number of entries that are free for hardware and software interrupts.
pub const INTERRUPT_ENTRIES: usize = 224;

/// Number of bytes of the table, minus one.
pub const TABLE_LIMIT: u16 = 2047;

/// Bit of an entry's options that marks it present.
pub const PRESENT_BIT: usize = 15;

/// Options with only the must-be-one bits set: a 32-bit interrupt gate.
pub const MINIMAL_BITS: u16 = 0x0e00;

/// A struct describing a pointer to a descriptor table (GDT / IDT).
#[derive(Debug, Clone, Copy, PartialEq, Eq, Structural)]
pub struct DescriptorTablePointer {
    /// Size of the DT in bytes - 1.
    pub limit: u16,
    /// Pointer to the memory region containing the DT.
    pub base: u32,
}

/// Kind of a handler for an interrupt or an exception without error code.
#[derive(Debug, Clone, Copy)]
pub struct HandlerFunc;

/// Kind of a handler for an exception that pushes an error code.
#[derive(Debug, Clone, Copy)]
pub struct HandlerFuncWithErrCode;

/// Kind of a page fault handler, which gets a page fault error code.
#[derive(Debug, Clone, Copy)]
pub struct PageFaultHandlerFunc;

/// Kind of a handler that must not return, e.g. for a machine check exception.
#[derive(Debug, Clone, Copy)]
pub struct DivergingHandlerFunc;

/// Kind of a handler with an error code that must not return, e.g. for a double fault exception.
#[derive(Debug, Clone, Copy)]
pub struct DivergingHandlerFuncWithErrCode;

/// The bit `bit` of `bits`.
pub open spec fn bit_of(bits: u16, bit: usize) -> bool {
    bits & (1u16 << (bit as u16)) != 0
}

/// `bits` with the bit `bit` set to `value`.
pub open spec fn with_bit(bits: u16, bit: usize, value: bool) -> u16 {
    if value {
        bits | (1u16 << (bit as u16))
    } else {
        bits & !(1u16 << (bit as u16))
    }
}

/// `BitField::get_bit` of the crate bit_field, on a `u16`: whether the bit
/// at index `bit`, counted from the least significant one, is set. The
/// index must be below 16.
#[verifier::external_body]
fn get_bit(bits: u16, bit: usize) -> (r: bool)
    requires
        bit < 16,
    ensures
        r == bit_of(bits, bit),
{
    bits.get_bit(bit)
}

/// `BitField::set_bit` of the crate bit_field, on a `u16`: sets the bit at
/// index `bit`, counted from the least significant one, to `value`, and
/// leaves the other bits as they are. The index must be below 16.
#[verifier::external_body]
fn set_bit(bits: &mut u16, bit: usize, value: bool)
    requires
        bit < 16,
    ensures
        *final(bits) == with_bit(*old(bits), bit, value),
{
    bits.set_bit(bit, value);
}

/// Represents the 4 non-offset bytes of an IDT entry.
#[derive(Debug, Clone, Copy, PartialEq, Eq, Structural)]
pub struct EntryOptions {
    cs: u16,
    bits: u16,
}

impl EntryOptions {
    /// The code segment that the interrupt uses.
    pub closed spec fn code_selector(&self) -> u16 {
        self.cs
    }

    /// The option bits.
    pub closed spec fn raw_bits(&self) -> u16 {
        self.bits
    }

    /// Whether the present bit is set.
    pub open spec fn is_present(&self) -> bool {
        bit_of(self.raw_bits(), PRESENT_BIT)
    }

    /// Whether these are the minimal options.
    pub open spec fn is_minimal(&self) -> bool {
        self.code_selector() == 0 && self.raw_bits() == MINIMAL_BITS
    }

    /// Creates a minimal options field with all the must-be-one bits set. This
    /// means the CS selector, IST, and DPL field are all 0.
    pub fn minimal() -> (options: Self)
        ensures
            options.is_minimal(),
            !options.is_present(),
    {
        assert(0x0e00u16 & (1u16 << 15u16) == 0) by (bit_vector);
        EntryOptions { cs: 0, bits: MINIMAL_BITS }
    }

    /// Set the code segment that will be used by this interrupt.
    pub fn set_code_selector(&mut self, cs: u16) -> (options: &mut Self)
        ensures
            options.code_selector() == cs,
            options.raw_bits() == old(self).raw_bits(),
            *final(self) == *final(options),
    {
        self.cs = cs;
        self
    }

    /// Set or reset the preset bit.
    pub fn set_present(&mut self, present: bool) -> (options: &mut Self)
        ensures
            options.code_selector() == old(self).code_selector(),
            options.raw_bits() == with_bit(old(self).raw_bits(), PRESENT_BIT, present),
            options.is_present() == present,
            *final(self) == *final(options),
    {
        let ghost before = self.bits;
        set_bit(&mut self.bits, PRESENT_BIT, present);
        assert(((before | (1u16 << 15u16)) & (1u16 << 15u16)) != 0) by (bit_vector);
        assert(((before & !(1u16 << 15u16)) & (1u16 << 15u16)) == 0) by (bit_vector);
        self
    }

    /// Whether the present bit is set.
    pub fn present(&self) -> (r: bool)
        ensures
            r == self.is_present(),
    {
        get_bit(self.bits, PRESENT_BIT)
    }

    /// The code segment that the interrupt uses.
    pub fn get_code_selector(&self) -> (cs: u16)
        ensures
            cs == self.code_selector(),
    {
        self.cs
    }

    /// The option bits.
    pub fn get_bits(&self) -> (bits: u16)
        ensures
            bits == self.raw_bits(),
    {
        self.bits
    }
}

/// The address whose low half is `low` and whose high half is `high`.
pub open spec fn joined_address(low: u16, high: u16) -> u32 {
    (low as u32) | ((high as u32) << 16)
}

/// An Interrupt Descriptor Table entry.
///
/// The generic parameter is the kind of handler, depending on the interrupt vector.
#[derive(Debug)]
pub struct Entry<F> {
    pointer_low: u16,
    options: EntryOptions,
    pointer_high: u16,
    phantom: PhantomData<F>,
}

impl<F> Clone for Entry<F> {
    fn clone(&self) -> (entry: Self)
        ensures
            entry == *self,
    {
        *self
    }
}

impl<F> Copy for Entry<F> {

}

impl<F> PartialEq for Entry<F> {
    fn eq(&self, other: &Self) -> (r: bool) {
        self.pointer_low == other.pointer_low && self.options == other.options
            && self.pointer_high == other.pointer_high
    }
}

impl<F> vstd::std_specs::cmp::PartialEqSpecImpl for Entry<F> {
    open spec fn obeys_eq_spec() -> bool {
        true
    }

    closed spec fn eq_spec(&self, other: &Self) -> bool {
        self.pointer_low == other.pointer_low && self.options == other.options
            && self.pointer_high == other.pointer_high
    }
}

impl<F> Entry<F> {
    /// The address of the handler.
    pub closed spec fn address(&self) -> u32 {
        joined_address(self.pointer_low, self.pointer_high)
    }

    /// The options of the entry.
    pub closed spec fn options(&self) -> EntryOptions {
        self.options
    }

    /// Whether the entry is the non-present one.
    pub open spec fn is_missing(&self) -> bool {
        self.address() == 0 && self.options().is_minimal()
    }

    /// The non-present entry.
    pub closed spec fn blank() -> Self {
        Entry {
            pointer_low: 0,
            options: EntryOptions { cs: 0, bits: MINIMAL_BITS },
            pointer_high: 0,
            phantom: PhantomData,
        }
    }

    /// Two entries are equal exactly if they hold the same address and
    /// the same options.
    pub proof fn lemma_equal_entries(&self, other: &Self)
        ensures
            self.eq_spec(other) <==> (self.address() == other.address() && self.options()
                == other.options()),
    {
        let (a, b) = (self.pointer_low, self.pointer_high);
        let (c, d) = (other.pointer_low, other.pointer_high);
        assert(((a as u32) | ((b as u32) << 16)) == ((c as u32) | ((d as u32) << 16)) ==> a == c
            && b == d) by (bit_vector);
    }

    /// Creates a non-present IDT entry (but sets the must-be-one bits).
    pub fn missing() -> (entry: Self)
        ensures
            entry == Self::blank(),
            entry.is_missing(),
    {
        assert(joined_address(0, 0) == 0) by (bit_vector);
        Entry { pointer_low: 0, options: EntryOptions::minimal(), pointer_high: 0, phantom: PhantomData }
    }

    /// Sets the handler address for the IDT entry and sets the following defaults:
    ///   - The code selector is `code_segment`, the code segment currently active in the CPU
    ///   - The present bit is set
    ///   - Interrupts are disabled on handler invocation
    ///   - The privilege level (DPL) is ring 0
    ///   - No IST is configured (existing stack will be used)
    pub fn set_handler_addr(&mut self, addr: u32, code_segment: u16) -> (options: &mut EntryOptions)
        ensures
            options.code_selector() == code_segment,
            options.raw_bits() == with_bit(MINIMAL_BITS, PRESENT_BIT, true),
            options.is_present(),
            final(self).address() == addr,
            final(self).options() == *final(options),
    {
        self.pointer_low = addr as u16;
        self.pointer_high = (addr >> 16) as u16;
        assert(joined_address(addr as u16, (addr >> 16) as u16) == addr) by (bit_vector);
        self.options = EntryOptions::minimal();
        self.options.set_code_selector(code_segment);
        self.options.set_present(true);
        &mut self.options
    }

    /// Returns the virtual address of this IDT entry's handler function.
    pub fn handler_addr(&self) -> (addr: u32)
        ensures
            addr == self.address(),
    {
        self.pointer_low as u32 | ((self.pointer_high as u32) << 16)
    }

    /// The options of the entry.
    pub fn get_options(&self) -> (options: EntryOptions)
        ensures
            options == self.options(),
    {
        self.options
    }
}

/// The table of the handlers for exceptions and interrupts. Each field is
/// the entry of one exception; `interrupts` holds the entries from vector
/// 32 on.
#[derive(Clone, Debug)]
pub struct InterruptDescriptorTable {
    pub divide_error: Entry<HandlerFunc>,
    pub debug: Entry<HandlerFunc>,
    pub non_maskable_interrupt: Entry<HandlerFunc>,
    pub breakpoint: Entry<HandlerFunc>,
    pub overflow: Entry<HandlerFunc>,
    pub bound_range_exceeded: Entry<HandlerFunc>,
    pub invalid_opcode: Entry<HandlerFunc>,
    pub device_not_available: Entry<HandlerFunc>,
    pub double_fault: Entry<DivergingHandlerFuncWithErrCode>,
    pub coprocessor_segment_overrun: Entry<HandlerFunc>,
    pub invalid_tss: Entry<HandlerFuncWithErrCode>,
    pub segment_not_present: Entry<HandlerFuncWithErrCode>,
    pub stack_segment_fault: Entry<HandlerFuncWithErrCode>,
    pub general_protection_fault: Entry<HandlerFuncWithErrCode>,
    pub page_fault: Entry<PageFaultHandlerFunc>,
    pub reserved_1: Entry<HandlerFunc>,
    pub x87_floating_point: Entry<HandlerFunc>,
    pub alignment_check: Entry<HandlerFuncWithErrCode>,
    pub machine_check: Entry<DivergingHandlerFunc>,
    pub simd_floating_point: Entry<HandlerFunc>,
    pub virtualization: Entry<HandlerFunc>,
    pub cp_protection_exception: Entry<HandlerFuncWithErrCode>,
    pub reserved_2: [Entry<HandlerFunc>; 6],
    pub hv_injection_exception: Entry<HandlerFunc>,
    pub vmm_communication_exception: Entry<HandlerFuncWithErrCode>,
    pub security_exception: Entry<HandlerFuncWithErrCode>,
    pub reserved_3: Entry<HandlerFunc>,
    pub interrupts: [Entry<HandlerFunc>; INTERRUPT_ENTRIES],
}

impl InterruptDescriptorTable {
    /// Whether every reserved entry is the non-present one.
    pub open spec fn reserved_missing(&self) -> bool {
        &&& self.coprocessor_segment_overrun.is_missing()
        &&& self.reserved_1.is_missing()
        &&& forall|i: int| 0 <= i < 6 ==> (#[trigger] self.reserved_2[i]).is_missing()
        &&& self.reserved_3.is_missing()
    }

    /// Whether every entry is the non-present one.
    pub open spec fn all_missing(&self) -> bool {
        &&& self.divide_error.is_missing()
        &&& self.debug.is_missing()
        &&& self.non_maskable_interrupt.is_missing()
        &&& self.breakpoint.is_missing()
        &&& self.overflow.is_missing()
        &&& self.bound_range_exceeded.is_missing()
        &&& self.invalid_opcode.is_missing()
        &&& self.device_not_available.is_missing()
        &&& self.double_fault.is_missing()
        &&& self.invalid_tss.is_missing()
        &&& self.segment_not_present.is_missing()
        &&& self.stack_segment_fault.is_missing()
        &&& self.general_protection_fault.is_missing()
        &&& self.page_fault.is_missing()
        &&& self.x87_floating_point.is_missing()
        &&& self.alignment_check.is_missing()
        &&& self.machine_check.is_missing()
        &&& self.simd_floating_point.is_missing()
        &&& self.virtualization.is_missing()
        &&& self.cp_protection_exception.is_missing()
        &&& self.hv_injection_exception.is_missing()
        &&& self.vmm_communication_exception.is_missing()
        &&& self.security_exception.is_missing()
        &&& self.reserved_missing()
        &&& forall|i: int|
            0 <= i < INTERRUPT_ENTRIES ==> (#[trigger] self.interrupts[i]).is_missing()
    }

    /// The table whose every entry is the non-present one.
    pub closed spec fn blank() -> Self {
        let missing = Entry::<HandlerFunc>::blank();
        InterruptDescriptorTable {
            divide_error: missing,
            debug: missing,
            non_maskable_interrupt: missing,
            breakpoint: missing,
            overflow: missing,
            bound_range_exceeded: missing,
            invalid_opcode: missing,
            device_not_available: missing,
            double_fault: Entry::blank(),
            coprocessor_segment_overrun: missing,
            invalid_tss: Entry::blank(),
            segment_not_present: Entry::blank(),
            stack_segment_fault: Entry::blank(),
            general_protection_fault: Entry::blank(),
            page_fault: Entry::blank(),
            reserved_1: missing,
            x87_floating_point: missing,
            alignment_check: Entry::blank(),
            machine_check: Entry::blank(),
            simd_floating_point: missing,
            virtualization: missing,
            cp_protection_exception: Entry::blank(),
            reserved_2: vstd::array::spec_array_fill_for_copy_type(missing),
            hv_injection_exception: missing,
            vmm_communication_exception: Entry::blank(),
            security_exception: Entry::blank(),
            reserved_3: missing,
            interrupts: vstd::array::spec_array_fill_for_copy_type(missing),
        }
    }

    /// Creates a new IDT filled with non-present entries.
    pub fn new() -> (idt: Self)
        ensures
            idt == Self::blank(),
            idt.all_missing(),
    {
        Self {
            divide_error: Entry::missing(),
            debug: Entry::missing(),
            non_maskable_interrupt: Entry::missing(),
            breakpoint: Entry::missing(),
            overflow: Entry::missing(),
            bound_range_exceeded: Entry::missing(),
            invalid_opcode: Entry::missing(),
            device_not_available: Entry::missing(),
            double_fault: Entry::missing(),
            coprocessor_segment_overrun: Entry::missing(),
            invalid_tss: Entry::missing(),
            segment_not_present: Entry::missing(),
            stack_segment_fault: Entry::missing(),
            general_protection_fault: Entry::missing(),
            page_fault: Entry::missing(),
            reserved_1: Entry::missing(),
            x87_floating_point: Entry::missing(),
            alignment_check: Entry::missing(),
            machine_check: Entry::missing(),
            simd_floating_point: Entry::missing(),
            virtualization: Entry::missing(),
            cp_protection_exception: Entry::missing(),
            reserved_2: [Entry::missing();6],
            hv_injection_exception: Entry::missing(),
            vmm_communication_exception: Entry::missing(),
            security_exception: Entry::missing(),
            reserved_3: Entry::missing(),
            interrupts: [Entry::missing();INTERRUPT_ENTRIES],
        }
    }

    /// Resets all entries of this IDT in place.
    pub fn reset(&mut self)
        ensures
            *final(self) == Self::blank(),
            final(self).all_missing(),
    {
        *self = Self::new();
    }

    /// Creates the descriptor pointer for this table, given the address
    /// where the table lies.
    pub fn pointer(&self, base: u32) -> (pointer: DescriptorTablePointer)
        ensures
            pointer == (DescriptorTablePointer { limit: TABLE_LIMIT, base }),
    {
        DescriptorTablePointer { limit: TABLE_LIMIT, base }
    }
}

impl Default for InterruptDescriptorTable {
    fn default() -> (idt: Self)
        ensures
            idt.all_missing(),
    {
        Self::new()
    }
}

/// Represents the interrupt stack frame pushed by the CPU on interrupt or exception entry.
#[derive(Clone, Copy, Debug)]
pub struct InterruptStackFrameValue {
    /// This value points to the instruction that should be executed when the interrupt
    /// handler returns. For most interrupts, this value points to the instruction immediately
    /// following the last executed instruction. However, for some exceptions (e.g., page faults),
    /// this value points to the faulting instruction, so that the instruction is restarted on
    /// return.
    pub instruction_pointer: u32,
    /// The code segment selector at the time of the interrupt.
    pub code_segment: u16,
    pub _reserved1: [u8; 2],
    /// The flags register before the interrupt handler was invoked.
    pub cpu_flags: u32,
    /// The stack pointer at the time of the interrupt.
    pub stack_pointer: u32,
    /// The stack segment descriptor at the time of the interrupt (often zero in 64-bit mode).
    pub stack_segment: u16,
    pub _reserved2: [u8; 2],
}

impl InterruptStackFrameValue {
    /// Creates a new interrupt stack frame with the given values.
    pub fn new(
        instruction_pointer: u32,
        code_segment: u16,
        cpu_flags: u32,
        stack_pointer: u32,
        stack_segment: u16,
    ) -> (frame: Self)
        ensures
            frame.instruction_pointer == instruction_pointer,
            frame.code_segment == code_segment,
            frame.cpu_flags == cpu_flags,
            frame.stack_pointer == stack_pointer,
            frame.stack_segment == stack_segment,
            frame._reserved1@ == seq![0u8, 0u8],
            frame._reserved2@ == seq![0u8, 0u8],
    {
        let reserved: [u8; 2] = [0, 0];
        assert(reserved@ =~= seq![0u8, 0u8]);
        Self {
            instruction_pointer,
            code_segment,
            _reserved1: reserved,
            cpu_flags,
            stack_pointer,
            stack_segment,
            _reserved2: reserved,
        }
    }
}

/// Wrapper type for the interrupt stack frame pushed by the CPU.
///
/// This wrapper type ensures that no accidental modification of the interrupt stack frame
/// occurs, which can cause undefined behavior.
#[derive(Clone, Copy, Debug)]
pub struct InterruptStackFrame(InterruptStackFrameValue);

impl InterruptStackFrame {
    /// The values of the frame.
    pub closed spec fn view(&self) -> InterruptStackFrameValue {
        self.0
    }

    /// Creates a new interrupt stack frame with the given values.
    pub fn new(
        instruction_pointer: u32,
        code_segment: u16,
        cpu_flags: u32,
        stack_pointer: u32,
        stack_segment: u16,
    ) -> (frame: Self)
        ensures
            frame@.instruction_pointer == instruction_pointer,
            frame@.code_segment == code_segment,
            frame@.cpu_flags == cpu_flags,
            frame@.stack_pointer == stack_pointer,
            frame@.stack_segment == stack_segment,
    {
        Self(
            InterruptStackFrameValue::new(
                instruction_pointer,
                code_segment,
                cpu_flags,
                stack_pointer,
                stack_segment,
            ),
        )
    }

    /// The values of the frame.
    pub fn value(&self) -> (value: &InterruptStackFrameValue)
        ensures
            *value == self@,
    {
        &self.0
    }
}

/// Describes an page fault error code.
///
/// This structure is defined by the following manual sections:
///   * AMD Volume 2: 8.4.2
///   * Intel Volume 3A: 4.7
#[derive(PartialEq, Eq, Structural, Debug, Clone, Copy)]
pub struct PageFaultErrorCode(pub u32);

} // verus!
