//! The pair of 8259 interrupt controllers: which interrupts they handle,
//! and the port writes that set them up and acknowledge an interrupt.

use vstd::prelude::*;
use super::instructions::port::{Port, PortOutput};

verus! {

/// Command sent to begin PIC initialization.
pub const CMD_INIT: u8 = 0x11;

/// Command sent to acknowledge an interrupt.
pub const CMD_END_OF_INTERRUPT: u8 = 0x20;

/// The mode in which we want to run our PICs.
pub const MODE_8086: u8 = 0x01;

/// Command port of the first PIC.
pub const PIC_1_COMMAND: u16 = 0x20;

/// Data port of the first PIC.
pub const PIC_1_DATA: u16 = 0x21;

/// Command port of the second PIC.
pub const PIC_2_COMMAND: u16 = 0xA0;

/// Data port of the second PIC.
pub const PIC_2_DATA: u16 = 0xA1;

/// Port that is written to let some time pass.
pub const WAIT_PORT: u16 = 0x80;

/// Whether a PIC whose interrupts start at `offset` handles `interrupt_id`.
/// (Each PIC handles 8 interrupts.)
pub open spec fn pic_handles(offset: u8, interrupt_id: u8) -> bool {
    offset <= interrupt_id < offset + 8
}

/// The write that lets some time pass.
pub open spec fn wait_output() -> PortOutput {
    PortOutput { port: WAIT_PORT, value: 0 }
}

/// The writes that set both PICs up, each followed by a wait: the
/// initialization command, the base offsets, the chaining between the two,
/// and the mode. The interrupt masks that were read before are written back
/// at the end.
pub open spec fn initialization_program(
    offset1: u8,
    offset2: u8,
    mask1: u8,
    mask2: u8,
) -> Seq<PortOutput> {
    seq![
        PortOutput { port: PIC_1_COMMAND, value: CMD_INIT },
        wait_output(),
        PortOutput { port: PIC_2_COMMAND, value: CMD_INIT },
        wait_output(),
        PortOutput { port: PIC_1_DATA, value: offset1 },
        wait_output(),
        PortOutput { port: PIC_2_DATA, value: offset2 },
        wait_output(),
        PortOutput { port: PIC_1_DATA, value: 4 },
        wait_output(),
        PortOutput { port: PIC_2_DATA, value: 2 },
        wait_output(),
        PortOutput { port: PIC_1_DATA, value: MODE_8086 },
        wait_output(),
        PortOutput { port: PIC_2_DATA, value: MODE_8086 },
        wait_output(),
        PortOutput { port: PIC_1_DATA, value: mask1 },
        PortOutput { port: PIC_2_DATA, value: mask2 },
    ]
}

/// The writes that set the interrupt masks of both PICs.
pub open spec fn masks_program(mask1: u8, mask2: u8) -> Seq<PortOutput> {
    seq![
        PortOutput { port: PIC_1_DATA, value: mask1 },
        PortOutput { port: PIC_2_DATA, value: mask2 },
    ]
}

/// The writes that acknowledge `interrupt_id`. An interrupt of the second
/// PIC is acknowledged to both, because it is chained through the first;
/// one that neither handles is acknowledged to none.
pub open spec fn end_of_interrupt_program(offset1: u8, offset2: u8, interrupt_id: u8) -> Seq<
    PortOutput,
> {
    if pic_handles(offset2, interrupt_id) {
        seq![
            PortOutput { port: PIC_2_COMMAND, value: CMD_END_OF_INTERRUPT },
            PortOutput { port: PIC_1_COMMAND, value: CMD_END_OF_INTERRUPT },
        ]
    } else if pic_handles(offset1, interrupt_id) {
        seq![PortOutput { port: PIC_1_COMMAND, value: CMD_END_OF_INTERRUPT }]
    } else {
        Seq::empty()
    }
}

/// An individual PIC chip.  This is not exported, because we always access
/// it through `Pics` below.
struct Pic {
    /// The base offset to which our interrupts are mapped.
    offset: u8,
    /// The processor I/O port on which we send commands.
    command: Port<u8>,
    /// The processor I/O port on which we send and receive data.
    data: Port<u8>,
}

impl Pic {
    /// Are we in charge of handling the specified interrupt?
    /// (Each PIC handles 8 interrupts.)
    fn handles_interrupt(&self, interrupt_id: u8) -> (r: bool)
        ensures
            r == pic_handles(self.offset, interrupt_id),
    {
        self.offset <= interrupt_id && interrupt_id - self.offset < 8
    }

    /// The write that tells this PIC that an interrupt has been handled.
    fn end_of_interrupt(&self) -> (o: PortOutput)
        ensures
            o == (PortOutput { port: self.command.number(), value: CMD_END_OF_INTERRUPT }),
    {
        self.command.output(CMD_END_OF_INTERRUPT)
    }

    /// The write that sets the interrupt mask of this PIC.
    fn write_mask(&self, mask: u8) -> (o: PortOutput)
        ensures
            o == (PortOutput { port: self.data.number(), value: mask }),
    {
        self.data.output(mask)
    }
}

/// A pair of chained PICs.  This is the standard setup on x86.
pub struct ChainedPics {
    pics: [Pic; 2],
}

impl ChainedPics {
    /// Interrupt offset of the first PIC.
    pub closed spec fn offset1(&self) -> u8 {
        self.pics[0].offset
    }

    /// Interrupt offset of the second PIC.
    pub closed spec fn offset2(&self) -> u8 {
        self.pics[1].offset
    }

    /// The two PICs sit at their standard ports.
    pub closed spec fn wf(&self) -> bool {
        &&& self.pics[0].command.number() == PIC_1_COMMAND
        &&& self.pics[0].data.number() == PIC_1_DATA
        &&& self.pics[1].command.number() == PIC_2_COMMAND
        &&& self.pics[1].data.number() == PIC_2_DATA
    }

    /// Create a new interface for the standard PIC1 and PIC2,
    /// specifying the desired interrupt offsets.
    pub fn new(offset1: u8, offset2: u8) -> (pics: Self)
        ensures
            pics.wf(),
            pics.offset1() == offset1,
            pics.offset2() == offset2,
    {
        Self {
            pics: [
                Pic { offset: offset1, command: Port::new(PIC_1_COMMAND), data: Port::new(PIC_1_DATA) },
                Pic { offset: offset2, command: Port::new(PIC_2_COMMAND), data: Port::new(PIC_2_DATA) },
            ],
        }
    }

    /// Create a new `ChainedPics` interface that will map the PICs contiguously starting at the given interrupt offset.
    ///
    /// This is a convenience function that maps the PIC1 and PIC2 to a
    /// contiguous set of interrupts. This function is equivalent to
    /// `Self::new(primary_offset, primary_offset + 8)`.
    pub fn new_contiguous(primary_offset: u8) -> (pics: Self)
        requires
            primary_offset + 8 <= u8::MAX,
        ensures
            pics.wf(),
            pics.offset1() == primary_offset,
            pics.offset2() == primary_offset + 8,
    {
        Self::new(primary_offset, primary_offset + 8)
    }

    /// The writes that initialize both our PICs, given the interrupt masks
    /// that they held before. We initialize them together, at the same
    /// time, because it's traditional to do so, and because I/O operations
    /// might not be instantaneous on older processors.
    pub fn initialize(&self, saved_masks: [u8; 2]) -> (program: Vec<PortOutput>)
        requires
            self.wf(),
        ensures
            program@ == initialization_program(
                self.offset1(),
                self.offset2(),
                saved_masks[0],
                saved_masks[1],
            ),
    {
        // We need to add a delay between writes to our PICs, especially on
        // older motherboards.  But we don't necessarily have any kind of
        // timers yet, because most of them require interrupts.  Various
        // older versions of Linux and other PC operating systems have
        // worked around this by writing garbage data to port 0x80, which
        // allegedly takes long enough to make everything work on most
        // hardware.
        let wait_port: Port<u8> = Port::new(WAIT_PORT);
        let wait = wait_port.output(0);
        let mut program: Vec<PortOutput> = Vec::new();

        // Tell each PIC that we're going to send it a three-byte
        // initialization sequence on its data port.
        program.push(self.pics[0].command.output(CMD_INIT));
        program.push(wait);
        program.push(self.pics[1].command.output(CMD_INIT));
        program.push(wait);

        // Byte 1: Set up our base offsets.
        program.push(self.pics[0].data.output(self.pics[0].offset));
        program.push(wait);
        program.push(self.pics[1].data.output(self.pics[1].offset));
        program.push(wait);

        // Byte 2: Configure chaining between PIC1 and PIC2.
        program.push(self.pics[0].data.output(4));
        program.push(wait);
        program.push(self.pics[1].data.output(2));
        program.push(wait);

        // Byte 3: Set our mode.
        program.push(self.pics[0].data.output(MODE_8086));
        program.push(wait);
        program.push(self.pics[1].data.output(MODE_8086));
        program.push(wait);

        // Restore our saved masks.
        program.push(self.pics[0].write_mask(saved_masks[0]));
        program.push(self.pics[1].write_mask(saved_masks[1]));
        assert(program@ =~= initialization_program(
            self.offset1(),
            self.offset2(),
            saved_masks[0],
            saved_masks[1],
        ));
        program
    }

    /// The writes that set the interrupt masks of both PICs.
    pub fn write_masks(&self, mask1: u8, mask2: u8) -> (program: Vec<PortOutput>)
        requires
            self.wf(),
        ensures
            program@ == masks_program(mask1, mask2),
    {
        let mut program: Vec<PortOutput> = Vec::new();
        program.push(self.pics[0].write_mask(mask1));
        program.push(self.pics[1].write_mask(mask2));
        assert(program@ =~= masks_program(mask1, mask2));
        program
    }

    /// The writes that disable both PICs by masking all interrupts.
    pub fn disable(&self) -> (program: Vec<PortOutput>)
        requires
            self.wf(),
        ensures
            program@ == masks_program(u8::MAX, u8::MAX),
    {
        self.write_masks(u8::MAX, u8::MAX)
    }

    /// Do we handle this interrupt?
    pub fn handles_interrupt(&self, interrupt_id: u8) -> (r: bool)
        ensures
            r == (pic_handles(self.offset1(), interrupt_id) || pic_handles(
                self.offset2(),
                interrupt_id,
            )),
    {
        self.pics[0].handles_interrupt(interrupt_id) || self.pics[1].handles_interrupt(
            interrupt_id,
        )
    }

    /// Figure out which (if any) PICs in our chain need to know about this
    /// interrupt.  This is tricky, because all interrupts from `pics[1]`
    /// get chained through `pics[0]`.
    pub fn notify_end_of_interrupt(&self, interrupt_id: u8) -> (program: Vec<PortOutput>)
        requires
            self.wf(),
        ensures
            program@ == end_of_interrupt_program(self.offset1(), self.offset2(), interrupt_id),
    {
        let mut program: Vec<PortOutput> = Vec::new();
        if self.handles_interrupt(interrupt_id) {
            if self.pics[1].handles_interrupt(interrupt_id) {
                program.push(self.pics[1].end_of_interrupt());
            }
            program.push(self.pics[0].end_of_interrupt());
        }
        assert(program@ =~= end_of_interrupt_program(
            self.offset1(),
            self.offset2(),
            interrupt_id,
        ));
        program
    }
}

} // verus!
