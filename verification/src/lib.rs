//! A CHIP-8 virtual machine: a fixed fetch-decode-execute loop over a small
//! register/memory/display model, with bit-exact arithmetic flags, XOR pixel
//! drawing with collision detection, and a validated debug surface.
use vstd::prelude::*;

mod constants;
pub mod error;
pub mod model;
mod debug;
mod ops;
mod step;
pub mod laws;

use constants::{FONT_LEN, FONT_OFFSET, MEM_SIZE, PROG_START, ROM_CAP};
use constants::font_sprites;
use error::ChipError;
use model::{initial_view, loaded_view, wf_view, with_key, MachineView};

verus! {

/// The main structure.
///
/// It manages all the emulation data, and represents the whole backend.
#[derive(Debug)]
pub struct Chip8 {
    pub(crate) mem: [u8; 4096],
    pub(crate) fb: [[bool; 64]; 32],
    pub(crate) v: [u8; 16],
    pub(crate) i: u16,
    pub(crate) dt: u8,
    pub(crate) st: u8,
    pub(crate) pc: u16,
    pub(crate) sp: usize,
    pub(crate) stack: [u16; 16],
    pub(crate) keypad: [bool; 16],
}

impl View for Chip8 {
    type V = MachineView;

    closed spec fn view(&self) -> MachineView {
        MachineView {
            mem: self.mem@,
            fb: Seq::new(32, |y: int| self.fb@[y]@),
            v: self.v@,
            i: self.i,
            dt: self.dt,
            st: self.st,
            pc: self.pc,
            sp: self.sp as int,
            stack: self.stack@,
            keypad: self.keypad@,
        }
    }
}

impl Chip8 {
    /// A machine whose view is well-formed; every public operation keeps
    /// this.
    pub open spec fn wf(&self) -> bool {
        wf_view(self@)
    }

    /// Returns a new instance of the structure.
    ///
    /// The instance returned already has the font sprites loaded in memory,
    /// and the `pc` register set to `0x200`.
    pub fn new() -> (c: Chip8)
        ensures
            c@ == initial_view(),
            c.wf(),
    {
        let font = font_sprites();
        let mut mem: [u8; 4096] = [0; 4096];
        for k in 0..FONT_LEN
            invariant
                font@ == constants::font_image(),
                forall|a: int|
                    0 <= a < MEM_SIZE ==> mem@[a] == (if FONT_OFFSET as int <= a < FONT_OFFSET as int
                        + k {
                        constants::font_image()[a - FONT_OFFSET as int]
                    } else {
                        0u8
                    }),
        {
            mem[FONT_OFFSET + k] = font[k];
        }
        let c = Chip8 {
            mem,
            fb: [[false; 64]; 32],
            v: [0; 16],
            i: 0,
            dt: 0,
            st: 0,
            pc: 0x200,
            sp: 0,
            stack: [0; 16],
            keypad: [false; 16],
        };
        proof {
            assert(c@.mem =~= initial_view().mem);
            assert(c@.fb =~~= initial_view().fb);
            assert(c@.v =~= initial_view().v);
            assert(c@.stack =~= initial_view().stack);
            assert(c@.keypad =~= initial_view().keypad);
            assert(c@ =~= initial_view());
        }
        c
    }

    /// Discards every prior mutation and restores the exact
    /// post-construction state.
    pub fn reset(&mut self)
        ensures
            final(self)@ == initial_view(),
            final(self).wf(),
    {
        *self = Chip8::new();
    }

    /// Returns true if the buzzer is on, that is while the sound timer is
    /// above zero.
    pub fn buzzer(&self) -> (r: bool)
        ensures
            r == (self@.st > 0),
    {
        self.st > 0
    }

    /// Sets key `k` as pressed.
    pub fn key_down(&mut self, k: usize)
        requires
            k < 16,
        ensures
            old(self).wf() ==> final(self).wf(),
            final(self)@ == with_key(old(self)@, k as int, true),
    {
        self.keypad[k] = true;
        proof {
            assert(self@ =~= with_key(old(self)@, k as int, true));
        }
    }

    /// Sets key `k` as released.
    pub fn key_up(&mut self, k: usize)
        requires
            k < 16,
        ensures
            old(self).wf() ==> final(self).wf(),
            final(self)@ == with_key(old(self)@, k as int, false),
    {
        self.keypad[k] = false;
        proof {
            assert(self@ =~= with_key(old(self)@, k as int, false));
        }
    }

    /// Returns the frame buffer: 64x32 pixels, row-major.
    pub fn fb(&self) -> (r: &[[bool; 64]; 32])
        ensures
            forall|y: int, x: int|
                0 <= y < 32 && 0 <= x < 64 ==> r@[y]@[x] == self@.fb[y][x],
    {
        &self.fb
    }

    /// Loads the given rom in memory, starting at the program region;
    /// nothing else changes, and nothing at all when the rom does not fit.
    pub fn load_rom(&mut self, rom: &[u8]) -> (r: Result<(), ChipError>)
        ensures
            old(self).wf() ==> final(self).wf(),
            match r {
                Ok(()) => rom@.len() <= ROM_CAP && final(self)@ == loaded_view(old(self)@, rom@),
                Err(e) => rom@.len() > ROM_CAP && e == ChipError::RomTooBig(rom@.len() as usize)
                    && final(self)@ == old(self)@,
            },
    {
        if rom.len() > ROM_CAP {
            return Err(ChipError::RomTooBig(rom.len()));
        }
        for k in 0..rom.len()
            invariant
                rom@.len() <= ROM_CAP,
                forall|a: int|
                    0 <= a < MEM_SIZE ==> self.mem@[a] == (if PROG_START as int <= a < PROG_START
                        as int + k {
                        rom@[a - PROG_START as int]
                    } else {
                        old(self)@.mem[a]
                    }),
                self.fb == old(self).fb,
                self.v == old(self).v,
                self.i == old(self).i,
                self.dt == old(self).dt,
                self.st == old(self).st,
                self.pc == old(self).pc,
                self.sp == old(self).sp,
                self.stack == old(self).stack,
                self.keypad == old(self).keypad,
        {
            self.mem[PROG_START + k] = rom[k];
        }
        proof {
            assert(self@.mem =~= loaded_view(old(self)@, rom@).mem);
            assert(self@ =~= loaded_view(old(self)@, rom@));
        }
        Ok(())
    }
}

impl Default for Chip8 {
    /// The same machine that `new` returns.
    fn default() -> (c: Self)
        ensures
            c@ == initial_view(),
            c.wf(),
    {
        Chip8::new()
    }
}

} // verus!
