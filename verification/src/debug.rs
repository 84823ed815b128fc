use vstd::prelude::*;

use crate::Chip8;
use crate::error::DebugChipError;
use crate::model::{
    with_dt, with_i, with_mem, with_pc, with_pixel, with_reg, with_sp, with_st, with_stack_at,
};

verus! {

/// The debug functions: validated access to every state field. A setter
/// checks its arguments first and mutates nothing when it reports an
/// error.
impl Chip8 {
    /// Returns a copy of the memory.
    pub fn get_mem(&self) -> (r: [u8; 4096])
        ensures
            r@ == self@.mem,
    {
        self.mem
    }

    /// Returns a copy of the register array.
    pub fn get_regs(&self) -> (r: [u8; 16])
        ensures
            r@ == self@.v,
    {
        self.v
    }

    /// Returns the program counter, the stack pointer and the index
    /// register, in this order.
    pub fn get_pointers(&self) -> (r: (u16, usize, u16))
        ensures
            r.0 == self@.pc,
            r.1 == self@.sp,
            r.2 == self@.i,
    {
        (self.pc, self.sp, self.i)
    }

    /// Returns the delay timer and the sound timer, in this order.
    pub fn get_timers(&self) -> (r: (u8, u8))
        ensures
            r.0 == self@.dt,
            r.1 == self@.st,
    {
        (self.dt, self.st)
    }

    /// Returns a copy of the stack.
    pub fn get_stack(&self) -> (r: [u16; 16])
        ensures
            r@ == self@.stack,
    {
        self.stack
    }

    /// Returns the keypad status.
    pub fn get_keypad(&self) -> (r: [bool; 16])
        ensures
            r@ == self@.keypad,
    {
        self.keypad
    }

    /// Writes a value at the given memory address.
    pub fn set_mem(&mut self, addr: usize, val: u8) -> (r: Result<(), DebugChipError>)
        ensures
            old(self).wf() ==> final(self).wf(),
            match r {
                Ok(()) => addr <= 0xfff && final(self)@ == with_mem(old(self)@, addr as int, val),
                Err(e) => addr > 0xfff && e == DebugChipError::AddrOutOfBounds(addr) && final(self)@ == old(self)@,
            },
    {
        if addr > 0xfff {
            return Err(DebugChipError::AddrOutOfBounds(addr));
        }
        self.mem[addr] = val;
        Ok(())
    }

    /// Writes a pixel on the frame buffer. Does not compute collision.
    pub fn set_fb(&mut self, x: usize, y: usize, pixel: bool) -> (r: Result<(), DebugChipError>)
        ensures
            old(self).wf() ==> final(self).wf(),
            match r {
                Ok(()) => x < 64 && y < 32 && final(self)@ == with_pixel(
                    old(self)@,
                    x as int,
                    y as int,
                    pixel,
                ),
                Err(e) => (x >= 64 || y >= 32) && e == DebugChipError::NoPixel(x, y) && final(self)@ == old(self)@,
            },
    {
        if x >= 64 || y >= 32 {
            return Err(DebugChipError::NoPixel(x, y));
        }
        let mut row = self.fb[y];
        row[x] = pixel;
        self.fb[y] = row;
        proof {
            assert(self@.fb =~~= with_pixel(old(self)@, x as int, y as int, pixel).fb);
            assert(self@ =~= with_pixel(old(self)@, x as int, y as int, pixel));
        }
        Ok(())
    }

    /// Writes a value in the given register.
    pub fn set_reg(&mut self, reg: usize, val: u8) -> (r: Result<(), DebugChipError>)
        ensures
            old(self).wf() ==> final(self).wf(),
            match r {
                Ok(()) => reg <= 0xf && final(self)@ == with_reg(old(self)@, reg as int, val),
                Err(e) => reg > 0xf && e == DebugChipError::NoRegister(reg) && final(self)@ == old(self)@,
            },
    {
        if reg > 0xf {
            return Err(DebugChipError::NoRegister(reg));
        }
        self.v[reg] = val;
        Ok(())
    }

    /// Sets the index register, which must fit in the 12-bit address space.
    pub fn set_i(&mut self, val: u16) -> (r: Result<(), DebugChipError>)
        ensures
            old(self).wf() ==> final(self).wf(),
            match r {
                Ok(()) => val & 0xf000 == 0 && final(self)@ == with_i(old(self)@, val),
                Err(e) => val & 0xf000 != 0 && e == DebugChipError::IndexTooBig(val) && final(self)@ == old(self)@,
            },
    {
        if val & 0xf000 != 0 {
            return Err(DebugChipError::IndexTooBig(val));
        }
        self.i = val;
        Ok(())
    }

    /// Sets the delay timer.
    pub fn set_dt(&mut self, val: u8)
        ensures
            old(self).wf() ==> final(self).wf(),
            final(self)@ == with_dt(old(self)@, val),
    {
        self.dt = val;
    }

    /// Sets the sound timer.
    pub fn set_st(&mut self, val: u8)
        ensures
            old(self).wf() ==> final(self).wf(),
            final(self)@ == with_st(old(self)@, val),
    {
        self.st = val;
    }

    /// Sets the program counter, which must fit in the 12-bit address
    /// space.
    pub fn set_pc(&mut self, val: u16) -> (r: Result<(), DebugChipError>)
        ensures
            old(self).wf() ==> final(self).wf(),
            match r {
                Ok(()) => val & 0xf000 == 0 && final(self)@ == with_pc(old(self)@, val),
                Err(e) => val & 0xf000 != 0 && e == DebugChipError::PcOutOfBounds(val) && final(self)@ == old(self)@,
            },
    {
        if val & 0xf000 != 0 {
            return Err(DebugChipError::PcOutOfBounds(val));
        }
        self.pc = val;
        Ok(())
    }

    /// Sets the stack pointer, which must stay inside the sixteen-entry
    /// stack.
    pub fn set_sp(&mut self, val: usize) -> (r: Result<(), DebugChipError>)
        requires
            old(self).wf(),
        ensures
            final(self).wf(),
            match r {
                Ok(()) => val <= 15 && final(self)@ == with_sp(old(self)@, val as int),
                Err(e) => val > 15 && e == DebugChipError::SpOutOfBounds(val) && final(self)@
                    == old(self)@,
            },
    {
        if val > 15 {
            return Err(DebugChipError::SpOutOfBounds(val));
        }
        self.sp = val;
        Ok(())
    }

    /// Writes a value on the stack at the given position; the position must
    /// name one of the sixteen slots and the value must fit in the 12-bit
    /// address space.
    pub fn set_stack(&mut self, pos: usize, val: u16) -> (r: Result<(), DebugChipError>)
        ensures
            old(self).wf() ==> final(self).wf(),
            match r {
                Ok(()) => pos <= 15 && val & 0xf000 == 0 && final(self)@ == with_stack_at(
                    old(self)@,
                    pos as int,
                    val,
                ),
                Err(e) => final(self)@ == old(self)@ && ((pos > 15 && e
                    == DebugChipError::SpOutOfBounds(pos)) || (pos <= 15 && val & 0xf000 > 0 && e
                    == DebugChipError::StackAddrOutOfBounds(val))),
            },
    {
        if pos > 15 {
            return Err(DebugChipError::SpOutOfBounds(pos));
        }
        if val & 0xf000 > 0 {
            return Err(DebugChipError::StackAddrOutOfBounds(val));
        }
        self.stack[pos] = val;
        Ok(())
    }
}

} // verus!
