//! Text-mode display: colors, screens and the display multiplexer.

use vstd::prelude::*;
use self::screen::{fresh_screen, screen_fits, stream_written, Screen, ScreenView};
use crate::arch::x86::instructions::port::{Port, PortOutput};
use vstd::string::StringSliceAdditionalSpecFns;

pub mod screen;
pub mod theory;

verus! {

/// Attribute of a cell. The first eight are the classic text-mode
/// foreground colors; `Black_on_White` is the inverse-video attribute that
/// marks the cell under the cursor.
#[allow(dead_code)]
#[allow(non_camel_case_types)]
#[derive(Debug, Copy, Clone, PartialEq, Eq, Structural)]
pub enum Color {
    Black,
    Blue,
    Green,
    Cyan,
    Red,
    Magenta,
    Yellow,
    White,
    Black_on_White,
}

/// The attribute byte that the display takes for `color`: the number of
/// a foreground color on a black background, or black on white.
pub open spec fn attribute_of(color: Color) -> u8 {
    match color {
        Color::Black => 0,
        Color::Blue => 1,
        Color::Green => 2,
        Color::Cyan => 3,
        Color::Red => 4,
        Color::Magenta => 5,
        Color::Yellow => 6,
        Color::White => 7,
        Color::Black_on_White => 0x70,
    }
}

impl Color {
    /// The attribute byte that the display takes for this color.
    pub fn attribute(self) -> (a: u8)
        ensures
            a == attribute_of(self),
    {
        match self {
            Color::Black => 0,
            Color::Blue => 1,
            Color::Green => 2,
            Color::Cyan => 3,
            Color::Red => 4,
            Color::Magenta => 5,
            Color::Yellow => 6,
            Color::White => 7,
            Color::Black_on_White => 0x70,
        }
    }
}

impl Default for Color {
    fn default() -> (c: Color)
        ensures
            c == Color::Black,
    {
        Color::Black
    }
}

/// Why a stream could not be written.
#[derive(Debug, Copy, Clone, PartialEq, Eq, Structural)]
pub enum WriteError {
    /// No screen has the index that was asked for.
    NoSuchScreen,
}

// ===== VGAPorts =====

/// Port that selects a register of the CRT controller.
pub const VGA_CRTC_INDEX: u16 = 0x3D4;

/// Port that reads or writes the selected register.
pub const VGA_CRTC_DATA: u16 = 0x3D5;

/// Register that holds the high byte of the display's start address.
pub const CRTC_START_ADDRESS_HIGH: u8 = 0x0c;

/// Register that holds the low byte of the display's start address.
pub const CRTC_START_ADDRESS_LOW: u8 = 0x0d;

/// The register pair of the CRT controller.
pub struct VGAPorts {
    command: Port<u8>,
    data: Port<u8>,
}

// ===== VGA =====

/// Number of screens.
pub const LENGTH: usize = 8;

/// Address of the display memory.
pub const ADDR: usize = 0x000b8000;

/// What the multiplexer holds: its screens and the index of the one shown.
pub struct VGAView {
    pub display: int,
    pub screens: Seq<ScreenView>,
}

/// Offset, in cells, of screen `index` in display memory.
pub open spec fn screen_offset_of(index: int) -> int {
    index * Screen::LENGTH
}

/// The writes that make the CRT controller show display memory from the
/// cell at `offset` on: the high byte of the offset to the start-address
/// register 0x0c, then the low byte to 0x0d, each after selecting the
/// register.
pub open spec fn start_address_program(offset: int) -> Seq<PortOutput> {
    seq![
        PortOutput { port: VGA_CRTC_INDEX, value: CRTC_START_ADDRESS_HIGH },
        PortOutput { port: VGA_CRTC_DATA, value: ((offset / 256) % 256) as u8 },
        PortOutput { port: VGA_CRTC_INDEX, value: CRTC_START_ADDRESS_LOW },
        PortOutput { port: VGA_CRTC_DATA, value: (offset % 256) as u8 },
    ]
}

/// The writes that a change of the shown screen from `from` to `to` takes:
/// none where nothing changes.
pub open spec fn display_program(from: int, to: int) -> Seq<PortOutput> {
    if from == to {
        Seq::empty()
    } else {
        start_address_program(screen_offset_of(to))
    }
}

impl VGAPorts {
    /// The pair sits at the controller's standard ports.
    pub closed spec fn wf(&self) -> bool {
        &&& self.command.number() == VGA_CRTC_INDEX
        &&& self.data.number() == VGA_CRTC_DATA
    }

    pub fn new() -> (ports: Self)
        ensures
            ports.wf(),
    {
        VGAPorts { command: Port::new(VGA_CRTC_INDEX), data: Port::new(VGA_CRTC_DATA) }
    }

    /// The writes that make the controller show display memory from the
    /// cell at `offset` on.
    pub fn start_address(&self, offset: usize) -> (program: Vec<PortOutput>)
        requires
            self.wf(),
        ensures
            program@ == start_address_program(offset as int),
    {
        let high: usize = (offset >> 8) & 0xFF;
        let low: usize = offset & 0xFF;
        assert(high == (offset / 256) % 256 && low == offset % 256) by (bit_vector)
            requires
                high == (offset >> 8) & 0xFF,
                low == offset & 0xFF,
        ;
        let mut program: Vec<PortOutput> = Vec::new();
        program.push(self.command.output(CRTC_START_ADDRESS_HIGH));
        program.push(self.data.output(high as u8));
        program.push(self.command.output(CRTC_START_ADDRESS_LOW));
        program.push(self.data.output(low as u8));
        assert(program@ =~= start_address_program(offset as int));
        program
    }
}

/// The port writes that a change of the shown screen from `from` to `to`
/// takes.
pub fn display_switch(from: usize, to: usize) -> (program: Vec<PortOutput>)
    requires
        to < LENGTH,
    ensures
        program@ == display_program(from as int, to as int),
{
    if to != from {
        VGAPorts::new().start_address(to * Screen::LENGTH)
    } else {
        Vec::new()
    }
}

/// The multiplexer: `LENGTH` screens that share one display, of which one
/// is shown.
pub struct VGA {
    display: usize,
    screens: [Screen; LENGTH],
    screen_offset: [usize; LENGTH],
    ports: VGAPorts,
}

impl VGA {
    pub closed spec fn view(&self) -> VGAView {
        VGAView {
            display: self.display as int,
            screens: Seq::new(LENGTH as nat, |i: int| self.screens[i]@),
        }
    }

    /// The shown index names a screen, every screen is consistent and
    /// stands for its own part of display memory.
    pub closed spec fn wf(&self) -> bool {
        &&& self.display < LENGTH
        &&& forall|i: int| 0 <= i < LENGTH ==> (#[trigger] self.screens[i]).wf()
        &&& forall|i: int|
            0 <= i < LENGTH ==> (#[trigger] self.screens[i]).base_address() == ADDR + i
                * Screen::SIZE
        &&& forall|i: int|
            0 <= i < LENGTH ==> (#[trigger] self.screen_offset[i]) == screen_offset_of(i)
        &&& self.ports.wf()
    }

    /// Eight empty screens, the second of them shown.
    pub fn new() -> (vga: Self)
        ensures
            vga.wf(),
            vga@.display == 1,
            vga@.screens.len() == LENGTH,
            forall|i: int| 0 <= i < LENGTH ==> (#[trigger] vga@.screens[i]) == fresh_screen(),
    {
        Self {
            display: 1,
            screens: [
                Screen::new(ADDR),
                Screen::new(ADDR + Screen::SIZE),
                Screen::new(ADDR + 2 * Screen::SIZE),
                Screen::new(ADDR + 3 * Screen::SIZE),
                Screen::new(ADDR + 4 * Screen::SIZE),
                Screen::new(ADDR + 5 * Screen::SIZE),
                Screen::new(ADDR + 6 * Screen::SIZE),
                Screen::new(ADDR + 7 * Screen::SIZE),
            ],
            screen_offset: [
                0,
                Screen::LENGTH,
                2 * Screen::LENGTH,
                3 * Screen::LENGTH,
                4 * Screen::LENGTH,
                5 * Screen::LENGTH,
                6 * Screen::LENGTH,
                7 * Screen::LENGTH,
            ],
            ports: VGAPorts::new(),
        }
    }

    /// A consistent multiplexer holds `LENGTH` screens, each of which fits,
    /// and shows one of them.
    pub proof fn lemma_wf_fits(&self)
        requires
            self.wf(),
        ensures
            self@.screens.len() == LENGTH,
            0 <= self@.display < LENGTH,
            forall|i: int| 0 <= i < LENGTH ==> screen_fits(#[trigger] self@.screens[i]),
    {
        assert forall|i: int| 0 <= i < LENGTH implies screen_fits(#[trigger] self@.screens[i]) by {
            assert(self.screens[i].wf());
            self.screens[i].lemma_wf_fits();
        }
    }

    /// The screen at `index`, for reading.
    pub fn peek_screen(&self, index: usize) -> (screen: &Screen)
        requires
            self.wf(),
            index < LENGTH,
        ensures
            screen@ == self@.screens[index as int],
            screen.wf(),
            screen.base_address() == ADDR + index * Screen::SIZE,
    {
        &self.screens[index]
    }

    /// The screen at `index`, for writing. The other screens and the index
    /// of the shown one stay as they are.
    pub fn get_screen(&mut self, index: usize) -> (screen: &mut Screen)
        requires
            old(self).wf(),
            index < LENGTH,
        ensures
            screen@ == old(self)@.screens[index as int],
            screen.wf(),
            screen.base_address() == ADDR + index * Screen::SIZE,
            final(self)@.display == old(self)@.display,
            final(self)@.screens =~= old(self)@.screens.update(index as int, final(screen)@),
            final(screen).wf() && final(screen).base_address() == screen.base_address()
                ==> final(self).wf(),
    {
        &mut self.screens[index]
    }

    /// The screen that is shown, for writing.
    pub fn get_current_screen(&mut self) -> (screen: &mut Screen)
        requires
            old(self).wf(),
        ensures
            screen@ == old(self)@.screens[old(self)@.display],
            screen.wf(),
            screen.base_address() == ADDR + old(self)@.display * Screen::SIZE,
            final(self)@.display == old(self)@.display,
            final(self)@.screens =~= old(self)@.screens.update(
                old(self)@.display,
                final(screen)@,
            ),
            final(screen).wf() && final(screen).base_address() == screen.base_address()
                ==> final(self).wf(),
    {
        &mut self.screens[self.display]
    }

    /// The screen that is shown, for reading.
    pub fn peek_current_screen(&self) -> (screen: &Screen)
        requires
            self.wf(),
        ensures
            screen@ == self@.screens[self@.display],
            screen.wf(),
    {
        &self.screens[self.display]
    }

    /// Index of the screen that is shown.
    pub fn get_current_index(&self) -> (index: usize)
        requires
            self.wf(),
        ensures
            index == self@.display,
            index < LENGTH,
    {
        self.display
    }

    /// Makes screen `index` the one shown, and returns the port writes that
    /// point the CRT controller at it. No screen's content changes.
    pub fn set_display(&mut self, index: usize) -> (program: Vec<PortOutput>)
        requires
            old(self).wf(),
            index < LENGTH,
        ensures
            final(self).wf(),
            final(self)@ == (VGAView { display: index as int, ..old(self)@ }),
            program@ == display_program(old(self)@.display, index as int),
    {
        let old_index = self.display;
        self.display = index;
        assert(self@.screens =~= old(self)@.screens);
        if index != old_index {
            self.ports.start_address(self.screen_offset[index])
        } else {
            Vec::new()
        }
    }

    /// Writes `s` to screen `index`.
    pub fn write(&mut self, index: usize, s: &str) -> (r: Result<(), WriteError>)
        requires
            old(self).wf(),
        ensures
            final(self).wf(),
            index < LENGTH <==> r is Ok,
            r is Err ==> r == Err::<(), WriteError>(WriteError::NoSuchScreen) && final(self)@
                == old(self)@,
            r is Ok ==> final(self)@ == (VGAView {
                screens: old(self)@.screens.update(
                    index as int,
                    stream_written(old(self)@.screens[index as int], s.spec_bytes()),
                ),
                ..old(self)@
            }),
    {
        if index < LENGTH {
            let _ = self.screens[index].write_str(s);
            assert(self@.screens =~= old(self)@.screens.update(
                index as int,
                stream_written(old(self)@.screens[index as int], s.spec_bytes()),
            ));
            Ok(())
        } else {
            Err(WriteError::NoSuchScreen)
        }
    }

    /// Writes `s` to the screen that is shown.
    pub fn write_current(&mut self, s: &str) -> (r: Result<(), WriteError>)
        requires
            old(self).wf(),
        ensures
            final(self).wf(),
            r is Ok,
            final(self)@ == (VGAView {
                screens: old(self)@.screens.update(
                    old(self)@.display,
                    stream_written(old(self)@.screens[old(self)@.display], s.spec_bytes()),
                ),
                ..old(self)@
            }),
    {
        self.write(self.display, s)
    }
}

/// Writes `s` to the screen that `vga` shows.
pub fn _print(vga: &mut VGA, s: &str) -> (r: Result<(), WriteError>)
    requires
        old(vga).wf(),
    ensures
        final(vga).wf(),
        r is Ok,
        final(vga)@ == (VGAView {
            screens: old(vga)@.screens.update(
                old(vga)@.display,
                stream_written(old(vga)@.screens[old(vga)@.display], s.spec_bytes()),
            ),
            ..old(vga)@
        }),
{
    vga.write_current(s)
}

/// Writes `s` to screen `idx` of `vga`, if there is one.
pub fn _write(vga: &mut VGA, idx: usize, s: &str) -> (r: Result<(), WriteError>)
    requires
        old(vga).wf(),
    ensures
        final(vga).wf(),
        idx < LENGTH <==> r is Ok,
        r is Err ==> r == Err::<(), WriteError>(WriteError::NoSuchScreen) && final(vga)@ == old(
            vga,
        )@,
        r is Ok ==> final(vga)@ == (VGAView {
            screens: old(vga)@.screens.update(
                idx as int,
                stream_written(old(vga)@.screens[idx as int], s.spec_bytes()),
            ),
            ..old(vga)@
        }),
{
    vga.write(idx, s)
}

} // verus!
