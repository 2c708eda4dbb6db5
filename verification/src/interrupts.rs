//! The interrupts that drive the console: the table of their handlers, and
//! what each handler has the hardware do.

use vstd::prelude::*;
use crate::arch::x86::instructions::port::PortOutput;
use crate::arch::x86::pic_8259::{end_of_interrupt_program, ChainedPics};
use crate::arch::x86::structures::idt::{with_bit, InterruptDescriptorTable};
use crate::arch::x86::structures::idt::{MINIMAL_BITS, PRESENT_BIT};
use crate::keyboard::{key_event, KeyAction, Keyboard};

verus! {

/// First interrupt vector of the first PIC.
pub const PIC_1_OFFSET: u8 = 32;

/// First interrupt vector of the second PIC.
pub const PIC_2_OFFSET: u8 = 40;

/// Vector of the timer interrupt.
pub const TIMER_INTERRUPT: u8 = 32;

/// Vector of the keyboard interrupt.
pub const KEYBOARD_INTERRUPT: u8 = 33;

/// Port from which the keyboard's scancodes are read.
pub const KEYBOARD_DATA_PORT: u16 = 0x60;

/// The table with the handlers of the breakpoint exception, of the timer
/// and of the keyboard at the given addresses, in the code segment
/// `code_segment`; every other entry is non-present.
pub fn init_idt(
    breakpoint: u32,
    timer: u32,
    keyboard: u32,
    code_segment: u16,
) -> (idt: InterruptDescriptorTable)
    ensures
        idt.breakpoint.address() == breakpoint,
        idt.interrupts[0].address() == timer,
        idt.interrupts[1].address() == keyboard,
        idt.breakpoint.options().is_present(),
        idt.interrupts[0].options().is_present(),
        idt.interrupts[1].options().is_present(),
        idt.breakpoint.options().code_selector() == code_segment,
        idt.interrupts[0].options().code_selector() == code_segment,
        idt.interrupts[1].options().code_selector() == code_segment,
        idt.breakpoint.options().raw_bits() == with_bit(MINIMAL_BITS, PRESENT_BIT, true),
        idt.interrupts[0].options().raw_bits() == with_bit(MINIMAL_BITS, PRESENT_BIT, true),
        idt.interrupts[1].options().raw_bits() == with_bit(MINIMAL_BITS, PRESENT_BIT, true),
        forall|i: int| 2 <= i < idt.interrupts@.len() ==> (#[trigger] idt.interrupts[i]).is_missing(),
        idt == (InterruptDescriptorTable {
            breakpoint: idt.breakpoint,
            interrupts: idt.interrupts,
            ..InterruptDescriptorTable::blank()
        }),
{
    let mut idt = InterruptDescriptorTable::new();
    idt.breakpoint.set_handler_addr(breakpoint, code_segment);
    idt.interrupts[0].set_handler_addr(timer, code_segment);
    idt.interrupts[1].set_handler_addr(keyboard, code_segment);
    idt
}

/// What the timer's handler writes: the end of its interrupt.
pub fn timer_handler(pics: &ChainedPics) -> (program: Vec<PortOutput>)
    requires
        pics.wf(),
    ensures
        program@ == end_of_interrupt_program(pics.offset1(), pics.offset2(), TIMER_INTERRUPT),
{
    pics.notify_end_of_interrupt(TIMER_INTERRUPT)
}

/// What the keyboard's handler does with the scancode it has read: the
/// action for the console, and the end of the interrupt.
pub fn keyboard_handler(
    keyboard: &mut Keyboard,
    pics: &ChainedPics,
    scancode: u8,
) -> (r: (KeyAction, Vec<PortOutput>))
    requires
        pics.wf(),
    ensures
        (final(keyboard)@, r.0) == key_event(old(keyboard)@, scancode),
        r.1@ == end_of_interrupt_program(pics.offset1(), pics.offset2(), KEYBOARD_INTERRUPT),
{
    let action = keyboard.print_scancode(scancode);
    (action, pics.notify_end_of_interrupt(KEYBOARD_INTERRUPT))
}

} // verus!
