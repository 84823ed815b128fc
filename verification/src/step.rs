use vstd::prelude::*;

use crate::Chip8;
use crate::constants::MEM_SIZE;
use crate::error::ChipError;
use crate::model::{
    hi_nib_spec, lo_nib_spec, nnn_of, run_steps, step_spec, tick_timers, MachineView,
};

verus! {

/// Returns the hi nibble (four leftmost bits) of a byte.
fn hi_nib(b: u8) -> (r: u8)
    ensures
        r == hi_nib_spec(b),
        r < 16,
{
    proof {
        assert((b & 0xf0) >> 4 < 16) by (bit_vector);
    }
    (b & 0xf0) >> 4
}

/// Returns the low nibble (four rightmost bits) of a byte.
fn lo_nib(b: u8) -> (r: u8)
    ensures
        r == lo_nib_spec(b),
        r < 16,
{
    proof {
        assert(b & 0x0f < 16) by (bit_vector);
    }
    b & 0x0f
}

impl Chip8 {
    /// The 12-bit address field of the instruction at the program counter.
    fn nnn(&self) -> (r: u16)
        requires
            self@.pc + 1 < MEM_SIZE,
        ensures
            r == nnn_of(self@.mem[self@.pc as int], self@.mem[self@.pc as int + 1]),
    {
        (((self.mem[self.pc as usize] & 0x0f) as u16) << 8u16) | (self.mem[self.pc as usize + 1]
            as u16)
    }

    /// Reads and executes the next operation: one transition of
    /// `step_spec`, for the random byte the machine actually drew; an error
    /// leaves the state untouched, whatever byte would have been drawn.
    #[verifier::rlimit(60)]
    pub fn step(&mut self) -> (r: Result<u16, ChipError>)
        requires
            old(self).wf(),
        ensures
            final(self).wf(),
            match r {
                Ok(op) => exists|rnd: u8|
                    step_spec(old(self)@, rnd) == Ok::<(MachineView, u16), ChipError>(
                        (final(self)@, op),
                    ),
                Err(e) => final(self)@ == old(self)@ && forall|rnd: u8|
                    step_spec(old(self)@, rnd) == Err::<(MachineView, u16), ChipError>(e),
            },
    {
        if self.pc as usize >= MEM_SIZE - 1 {
            return Err(ChipError::PcOutOfBounds(self.pc));
        }
        let hi_op = self.mem[self.pc as usize];
        let lo_op = self.mem[self.pc as usize + 1];
        let op = ((hi_op as u16) << 8u16) | (lo_op as u16);
        let ghost pre = self@;
        let ghost mut rnd_w: u8 = 0;

        match hi_op & 0xf0 {
            0x00 => match lo_op {
                0xe0 => self.opcode_cls(),
                0xee => self.opcode_ret()?,
                _ => {
                    return Err(ChipError::UnrecognizedOpcode(op));
                },
            },
            0x10 => {
                let a = self.nnn();
                self.opcode_jp(a);
            },
            0x20 => {
                let a = self.nnn();
                self.opcode_call(a)?;
            },
            0x30 => {
                let x = lo_nib(hi_op) as usize;
                self.opcode_se(x, lo_op);
            },
            0x40 => {
                let x = lo_nib(hi_op) as usize;
                self.opcode_sne(x, lo_op);
            },
            0x50 => {
                let x = lo_nib(hi_op) as usize;
                let y = hi_nib(lo_op) as usize;
                self.opcode_se_r(x, y);
            },
            0x60 => {
                let x = lo_nib(hi_op) as usize;
                self.opcode_ld(x, lo_op);
            },
            0x70 => {
                let x = lo_nib(hi_op) as usize;
                self.opcode_add(x, lo_op);
            },
            0x80 => {
                let x = lo_nib(hi_op) as usize;
                let y = hi_nib(lo_op) as usize;
                match lo_nib(lo_op) {
                    0x00 => self.opcode_ld_r(x, y),
                    0x01 => self.opcode_or(x, y),
                    0x02 => self.opcode_and(x, y),
                    0x03 => self.opcode_xor(x, y),
                    0x04 => self.opcode_add_r(x, y),
                    0x05 => self.opcode_sub(x, y),
                    0x06 => self.opcode_shr(x),
                    0x07 => self.opcode_subn(x, y),
                    0x0e => self.opcode_shl(x),
                    _ => {
                        return Err(ChipError::UnrecognizedOpcode(op));
                    },
                }
            },
            0x90 => {
                let x = lo_nib(hi_op) as usize;
                let y = hi_nib(lo_op) as usize;
                self.opcode_sne_r(x, y);
            },
            0xa0 => {
                let a = self.nnn();
                self.opcode_ld_i(a);
            },
            0xb0 => {
                let a = self.nnn();
                self.opcode_jp_r(a);
            },
            0xc0 => {
                let x = lo_nib(hi_op) as usize;
                let rb = self.opcode_rnd(x, lo_op);
                proof {
                    rnd_w = rb;
                }
            },
            0xd0 => {
                let x = lo_nib(hi_op) as usize;
                let y = hi_nib(lo_op) as usize;
                let n = lo_nib(lo_op) as usize;
                self.opcode_drw(x, y, n);
            },
            0xe0 => match lo_op {
                0x9e => {
                    let x = lo_nib(hi_op) as usize;
                    self.opcode_skp(x);
                },
                0xa1 => {
                    let x = lo_nib(hi_op) as usize;
                    self.opcode_sknp(x);
                },
                _ => {
                    return Err(ChipError::UnrecognizedOpcode(op));
                },
            },
            0xf0 => {
                let x = lo_nib(hi_op) as usize;
                match lo_op {
                    0x07 => self.opcode_ld_dt(x),
                    0x0a => self.opcode_ld_k(x),
                    0x15 => self.opcode_ld_dt_r(x),
                    0x18 => self.opcode_ld_st(x),
                    0x1e => self.opcode_add_i(x),
                    0x29 => self.opcode_ld_digit(x),
                    0x33 => self.opcode_ld_bcd(x),
                    0x55 => self.opcode_ld_mass_store(x),
                    0x65 => self.opcode_ld_mass_load(x),
                    _ => {
                        return Err(ChipError::UnrecognizedOpcode(op));
                    },
                }
            },
            _ => {
                return Err(ChipError::UnrecognizedOpcode(op));
            },
        }

        self.pc = self.pc.wrapping_add(2);
        proof {
            assert(step_spec(pre, rnd_w) == Ok::<(MachineView, u16), ChipError>((self@, op)));
        }
        Ok(op)
    }

    /// Advances the emulation up until the next frame. The timers decay
    /// once, then up to `n` instructions execute, stopping early the moment
    /// a draw opcode completes; the first error aborts the burst with the
    /// state the failing step left untouched.
    pub fn frame(&mut self, n: usize) -> (r: Result<(), ChipError>)
        requires
            old(self).wf(),
        ensures
            final(self).wf(),
            exists|rnds: Seq<u8>|
                rnds.len() == n && (match r {
                    Ok(()) => run_steps(tick_timers(old(self)@), rnds) == Ok::<
                        MachineView,
                        (MachineView, ChipError),
                    >(final(self)@),
                    Err(e) => run_steps(tick_timers(old(self)@), rnds) == Err::<
                        MachineView,
                        (MachineView, ChipError),
                    >((final(self)@, e)),
                }),
    {
        if self.dt > 0 {
            self.dt = self.dt - 1;
        }
        if self.st > 0 {
            self.st = self.st - 1;
        }
        proof {
            assert(self@ =~= tick_timers(old(self)@));
        }
        let ghost s0 = self@;
        let ghost mut acc: Seq<u8> = Seq::empty();
        let mut idx: usize = 0;
        proof {
            assert forall|rest: Seq<u8>| run_steps(s0, acc + rest) == #[trigger] run_steps(
                self@,
                rest,
            ) by {
                assert(acc + rest =~= rest);
            }
        }
        while idx < n
            invariant
                self.wf(),
                idx <= n,
                acc.len() == idx,
                s0 == tick_timers(old(self)@),
                forall|rest: Seq<u8>|
                    run_steps(s0, acc + rest) == #[trigger] run_steps(self@, rest),
            decreases n - idx,
        {
            let ghost pre = self@;
            match self.step() {
                Err(e) => {
                    proof {
                        let rest = Seq::new((n - idx) as nat, |q: int| 0u8);
                        assert(step_spec(pre, 0u8) == Err::<(MachineView, u16), ChipError>(e));
                        assert(rest[0] == 0u8);
                        assert(run_steps(pre, rest) == Err::<MachineView, (MachineView, ChipError)>(
                            (pre, e),
                        ));
                        assert((acc + rest).len() == n);
                        assert(run_steps(tick_timers(old(self)@), acc + rest) == Err::<
                            MachineView,
                            (MachineView, ChipError),
                        >((self@, e)));
                        assert(exists|rnds: Seq<u8>|
                            rnds.len() == n && run_steps(tick_timers(old(self)@), rnds) == Err::<
                                MachineView,
                                (MachineView, ChipError),
                            >((self@, e)));
                    }
                    return Err(e);
                },
                Ok(op) => {
                    proof {
                        let rb = choose|rb: u8|
                            step_spec(pre, rb) == Ok::<(MachineView, u16), ChipError>((self@, op));
                        if op & 0xf000 == 0xd000 {
                            let rest = Seq::new((n - idx - 1) as nat, |q: int| 0u8);
                            let w = seq![rb] + rest;
                            assert(w[0] == rb);
                            assert(run_steps(pre, w) == Ok::<
                                MachineView,
                                (MachineView, ChipError),
                            >(self@));
                            assert((acc + w).len() == n);
                            assert(run_steps(tick_timers(old(self)@), acc + w) == Ok::<
                                MachineView,
                                (MachineView, ChipError),
                            >(self@));
                            assert(exists|rnds: Seq<u8>|
                                rnds.len() == n && run_steps(tick_timers(old(self)@), rnds) == Ok::<
                                    MachineView,
                                    (MachineView, ChipError),
                                >(self@));
                        } else {
                            let acc2 = acc.push(rb);
                            assert forall|rest: Seq<u8>|
                                run_steps(s0, acc2 + rest) == #[trigger] run_steps(
                                    self@,
                                    rest,
                                ) by {
                                let w = seq![rb] + rest;
                                assert(w[0] == rb);
                                assert(w.drop_first() =~= rest);
                                assert(acc2 + rest =~= acc + w);
                                assert(run_steps(pre, w) == run_steps(self@, rest));
                            }
                            acc = acc2;
                        }
                    }
                    if op & 0xf000 == 0xd000 {
                        return Ok(());
                    }
                },
            }
            idx = idx + 1;
        }
        proof {
            let rest: Seq<u8> = Seq::empty();
            assert(run_steps(self@, rest) == Ok::<MachineView, (MachineView, ChipError)>(self@));
            assert(run_steps(s0, acc + rest) == run_steps(self@, rest));
            assert(acc + rest =~= acc);
            assert(acc.len() == n);
            assert(run_steps(tick_timers(old(self)@), acc) == Ok::<
                MachineView,
                (MachineView, ChipError),
            >(self@));
            assert(exists|rnds: Seq<u8>|
                rnds.len() == n && run_steps(tick_timers(old(self)@), rnds) == Ok::<
                    MachineView,
                    (MachineView, ChipError),
                >(self@));
        }
        Ok(())
    }
}

} // verus!
