use vstd::prelude::*;

use rand::Rng;

use crate::Chip8;
use crate::constants::{FONT_OFFSET, MEM_SIZE};
use crate::error::ChipError;
use crate::model::{
    add_i_spec, add_r_spec, add_spec, and_spec, any_key_down, call_spec, cls_spec, draw_covers,
    draw_hit, drawn_fb, drawn_row, drw_spec, first_key_from, jp_r_spec, jp_spec, ld_bcd_spec,
    ld_digit_spec, ld_dt_r_spec, ld_dt_spec, ld_i_spec, ld_k_spec, ld_r_spec, ld_spec, ld_st_spec,
    mass_load_spec, mass_store_spec, or_spec, ret_spec, rnd_spec, row_hit, se_r_spec, se_spec,
    shl_spec, shr_spec, skp_spec, sknp_spec, sne_r_spec, sne_spec, sprite_bit, sprite_row,
    store_span, sub_spec, subn_spec, xor_spec, MachineView,
};

verus! {

/// Relies on rand::thread_rng and rand::Rng::gen_range over the full byte
/// range: some byte comes back, and nothing is assumed about which.
#[verifier::external_body]
fn random_byte() -> u8 {
    rand::thread_rng().gen_range(0..=0xffu8)
}

/// The opcode handlers. Each one performs the effect of its opcode and
/// leaves the program counter where the step loop's uniform post-increment
/// of two will land on the intended next instruction.
impl Chip8 {
    pub(crate) fn opcode_cls(&mut self)
        ensures
            final(self)@ == cls_spec(old(self)@),
    {
        self.fb = [[false; 64]; 32];
        proof {
            assert(self@.fb =~~= cls_spec(old(self)@).fb);
            assert(self@ =~= cls_spec(old(self)@));
        }
    }

    pub(crate) fn opcode_ret(&mut self) -> (r: Result<(), ChipError>)
        requires
            old(self).wf(),
        ensures
            final(self).wf(),
            match r {
                Ok(()) => ret_spec(old(self)@) == Ok::<MachineView, ChipError>(final(self)@),
                Err(e) => ret_spec(old(self)@) == Err::<MachineView, ChipError>(e) && final(self)@
                    == old(self)@,
            },
    {
        if self.sp == 0 {
            return Err(ChipError::SpOutOfBounds(0));
        }
        self.pc = self.stack[self.sp];
        self.sp = self.sp - 1;
        Ok(())
    }

    pub(crate) fn opcode_jp(&mut self, addr: u16)
        ensures
            final(self)@ == jp_spec(old(self)@, addr),
    {
        self.pc = addr.wrapping_sub(2);
    }

    pub(crate) fn opcode_call(&mut self, addr: u16) -> (r: Result<(), ChipError>)
        requires
            old(self).wf(),
        ensures
            final(self).wf(),
            match r {
                Ok(()) => call_spec(old(self)@, addr) == Ok::<MachineView, ChipError>(
                    final(self)@,
                ),
                Err(e) => call_spec(old(self)@, addr) == Err::<MachineView, ChipError>(e)
                    && final(self)@ == old(self)@,
            },
    {
        if self.sp >= 15 {
            return Err(ChipError::SpOutOfBounds(self.sp));
        }
        self.sp = self.sp + 1;
        self.stack[self.sp] = self.pc;
        self.pc = addr.wrapping_sub(2);
        Ok(())
    }

    pub(crate) fn opcode_se(&mut self, x: usize, byte: u8)
        requires
            x < 16,
        ensures
            final(self)@ == se_spec(old(self)@, x as int, byte),
    {
        if self.v[x] == byte {
            self.pc = self.pc.wrapping_add(2);
        }
    }

    pub(crate) fn opcode_sne(&mut self, x: usize, byte: u8)
        requires
            x < 16,
        ensures
            final(self)@ == sne_spec(old(self)@, x as int, byte),
    {
        if self.v[x] != byte {
            self.pc = self.pc.wrapping_add(2);
        }
    }

    pub(crate) fn opcode_se_r(&mut self, x: usize, y: usize)
        requires
            x < 16,
            y < 16,
        ensures
            final(self)@ == se_r_spec(old(self)@, x as int, y as int),
    {
        if self.v[x] == self.v[y] {
            self.pc = self.pc.wrapping_add(2);
        }
    }

    pub(crate) fn opcode_sne_r(&mut self, x: usize, y: usize)
        requires
            x < 16,
            y < 16,
        ensures
            final(self)@ == sne_r_spec(old(self)@, x as int, y as int),
    {
        if self.v[x] != self.v[y] {
            self.pc = self.pc.wrapping_add(2);
        }
    }

    pub(crate) fn opcode_ld(&mut self, x: usize, byte: u8)
        requires
            x < 16,
        ensures
            final(self)@ == ld_spec(old(self)@, x as int, byte),
    {
        self.v[x] = byte;
    }

    pub(crate) fn opcode_add(&mut self, x: usize, byte: u8)
        requires
            x < 16,
        ensures
            final(self)@ == add_spec(old(self)@, x as int, byte),
    {
        self.v[x] = self.v[x].wrapping_add(byte);
    }

    pub(crate) fn opcode_ld_r(&mut self, x: usize, y: usize)
        requires
            x < 16,
            y < 16,
        ensures
            final(self)@ == ld_r_spec(old(self)@, x as int, y as int),
    {
        self.v[x] = self.v[y];
    }

    pub(crate) fn opcode_or(&mut self, x: usize, y: usize)
        requires
            x < 16,
            y < 16,
        ensures
            final(self)@ == or_spec(old(self)@, x as int, y as int),
    {
        self.v[x] = self.v[x] | self.v[y];
    }

    pub(crate) fn opcode_and(&mut self, x: usize, y: usize)
        requires
            x < 16,
            y < 16,
        ensures
            final(self)@ == and_spec(old(self)@, x as int, y as int),
    {
        self.v[x] = self.v[x] & self.v[y];
    }

    pub(crate) fn opcode_xor(&mut self, x: usize, y: usize)
        requires
            x < 16,
            y < 16,
        ensures
            final(self)@ == xor_spec(old(self)@, x as int, y as int),
    {
        self.v[x] = self.v[x] ^ self.v[y];
    }

    pub(crate) fn opcode_add_r(&mut self, x: usize, y: usize)
        requires
            x < 16,
            y < 16,
        ensures
            final(self)@ == add_r_spec(old(self)@, x as int, y as int),
    {
        let a = self.v[x];
        let b = self.v[y];
        let carry: u8 = if (a as u16) + (b as u16) > 255 {
            1
        } else {
            0
        };
        self.v[0xf] = carry;
        self.v[x] = a.wrapping_add(b);
    }

    pub(crate) fn opcode_sub(&mut self, x: usize, y: usize)
        requires
            x < 16,
            y < 16,
        ensures
            final(self)@ == sub_spec(old(self)@, x as int, y as int),
    {
        let a = self.v[x];
        let b = self.v[y];
        let flag: u8 = if a >= b {
            1
        } else {
            0
        };
        self.v[0xf] = flag;
        self.v[x] = a.wrapping_sub(b);
    }

    pub(crate) fn opcode_subn(&mut self, x: usize, y: usize)
        requires
            x < 16,
            y < 16,
        ensures
            final(self)@ == subn_spec(old(self)@, x as int, y as int),
    {
        let a = self.v[x];
        let b = self.v[y];
        let flag: u8 = if b >= a {
            1
        } else {
            0
        };
        self.v[0xf] = flag;
        self.v[x] = b.wrapping_sub(a);
    }

    pub(crate) fn opcode_shr(&mut self, x: usize)
        requires
            x < 16,
        ensures
            final(self)@ == shr_spec(old(self)@, x as int),
    {
        self.v[0xf] = self.v[x] & 1;
        self.v[x] = self.v[x] >> 1u8;
    }

    pub(crate) fn opcode_shl(&mut self, x: usize)
        requires
            x < 16,
        ensures
            final(self)@ == shl_spec(old(self)@, x as int),
    {
        self.v[0xf] = (self.v[x] >> 7u8) & 1;
        self.v[x] = self.v[x] << 1u8;
    }

    pub(crate) fn opcode_ld_i(&mut self, addr: u16)
        ensures
            final(self)@ == ld_i_spec(old(self)@, addr),
    {
        self.i = addr;
    }

    pub(crate) fn opcode_jp_r(&mut self, addr: u16)
        ensures
            final(self)@ == jp_r_spec(old(self)@, addr),
    {
        self.pc = addr.wrapping_add(self.v[0] as u16).wrapping_sub(2);
    }

    /// Cxkk. The returned byte is the one the random source produced, so
    /// that a caller can name the outcome it observed.
    pub(crate) fn opcode_rnd(&mut self, x: usize, byte: u8) -> (rb: u8)
        requires
            x < 16,
        ensures
            final(self)@ == rnd_spec(old(self)@, x as int, byte, rb),
    {
        let rb = random_byte();
        self.v[x] = rb & byte;
        rb
    }

    pub(crate) fn opcode_ld_dt(&mut self, x: usize)
        requires
            x < 16,
        ensures
            final(self)@ == ld_dt_spec(old(self)@, x as int),
    {
        self.v[x] = self.dt;
    }

    pub(crate) fn opcode_ld_dt_r(&mut self, x: usize)
        requires
            x < 16,
        ensures
            final(self)@ == ld_dt_r_spec(old(self)@, x as int),
    {
        self.dt = self.v[x];
    }

    pub(crate) fn opcode_ld_st(&mut self, x: usize)
        requires
            x < 16,
        ensures
            final(self)@ == ld_st_spec(old(self)@, x as int),
    {
        self.st = self.v[x];
    }

    pub(crate) fn opcode_add_i(&mut self, x: usize)
        requires
            x < 16,
        ensures
            final(self)@ == add_i_spec(old(self)@, x as int),
    {
        self.i = self.i.wrapping_add(self.v[x] as u16);
    }

    pub(crate) fn opcode_ld_digit(&mut self, x: usize)
        requires
            x < 16,
        ensures
            final(self)@ == ld_digit_spec(old(self)@, x as int),
    {
        self.i = (FONT_OFFSET as u16) + 5 * (self.v[x] as u16);
    }

    pub(crate) fn opcode_ld_bcd(&mut self, x: usize)
        requires
            x < 16,
        ensures
            final(self)@ == ld_bcd_spec(old(self)@, x as int),
    {
        let i = self.i as usize;
        let val = self.v[x];
        self.mem[i % MEM_SIZE] = val / 100;
        self.mem[(i + 1) % MEM_SIZE] = (val % 100) / 10;
        self.mem[(i + 2) % MEM_SIZE] = val % 10;
    }

    pub(crate) fn opcode_skp(&mut self, x: usize)
        requires
            x < 16,
        ensures
            final(self)@ == skp_spec(old(self)@, x as int),
    {
        let vx = self.v[x];
        proof {
            assert(vx & 0x0f < 16) by (bit_vector);
        }
        let k = (vx & 0x0f) as usize;
        if self.keypad[k] {
            self.pc = self.pc.wrapping_add(2);
        }
    }

    pub(crate) fn opcode_sknp(&mut self, x: usize)
        requires
            x < 16,
        ensures
            final(self)@ == sknp_spec(old(self)@, x as int),
    {
        let vx = self.v[x];
        proof {
            assert(vx & 0x0f < 16) by (bit_vector);
        }
        let k = (vx & 0x0f) as usize;
        if !self.keypad[k] {
            self.pc = self.pc.wrapping_add(2);
        }
    }

    /// Fx0A: poll the keypad; rewind when nothing is pressed, else load the
    /// lowest pressed key index into Vx.
    pub(crate) fn opcode_ld_k(&mut self, x: usize)
        requires
            x < 16,
        ensures
            final(self)@ == ld_k_spec(old(self)@, x as int),
    {
        let mut k: usize = 0;
        while k < 16 && !self.keypad[k]
            invariant
                k <= 16,
                forall|j: int| 0 <= j < k ==> !(#[trigger] self.keypad@[j]),
            decreases 16 - k,
        {
            k = k + 1;
        }
        if k == 16 {
            assert(!any_key_down(self.keypad@));
            self.pc = self.pc.wrapping_sub(2);
        } else {
            proof {
                lemma_first_key(self.keypad@, k as int);
            }
            self.v[x] = k as u8;
        }
    }

    pub(crate) fn opcode_ld_mass_store(&mut self, x: usize)
        requires
            x < 16,
        ensures
            final(self)@ == mass_store_spec(old(self)@, x as int),
    {
        let i = self.i as usize;
        let mut r: usize = 0;
        while r <= x
            invariant
                x < 16,
                r <= x + 1,
                i == old(self)@.i,
                self.mem@ == store_span(old(self)@.mem, old(self)@.v, old(self)@.i, r - 1),
                self.fb == old(self).fb,
                self.v == old(self).v,
                self.i == old(self).i,
                self.dt == old(self).dt,
                self.st == old(self).st,
                self.pc == old(self).pc,
                self.sp == old(self).sp,
                self.stack == old(self).stack,
                self.keypad == old(self).keypad,
            decreases x + 1 - r,
        {
            self.mem[(i + r) % MEM_SIZE] = self.v[r];
            r = r + 1;
        }
        proof {
            assert(self@ =~= mass_store_spec(old(self)@, x as int));
        }
    }

    pub(crate) fn opcode_ld_mass_load(&mut self, x: usize)
        requires
            x < 16,
        ensures
            final(self)@ == mass_load_spec(old(self)@, x as int),
    {
        let i = self.i as usize;
        let mut r: usize = 0;
        while r <= x
            invariant
                x < 16,
                r <= x + 1,
                i == old(self)@.i,
                forall|k: int|
                    0 <= k < 16 ==> self.v@[k] == (if k < r {
                        old(self)@.mem[(old(self)@.i + k) % (MEM_SIZE as int)]
                    } else {
                        old(self)@.v[k]
                    }),
                self.mem == old(self).mem,
                self.fb == old(self).fb,
                self.i == old(self).i,
                self.dt == old(self).dt,
                self.st == old(self).st,
                self.pc == old(self).pc,
                self.sp == old(self).sp,
                self.stack == old(self).stack,
                self.keypad == old(self).keypad,
            decreases x + 1 - r,
        {
            self.v[r] = self.mem[(i + r) % MEM_SIZE];
            r = r + 1;
        }
        proof {
            assert(self@.v =~= mass_load_spec(old(self)@, x as int).v);
            assert(self@ =~= mass_load_spec(old(self)@, x as int));
        }
    }

    /// XOR one sprite row into framebuffer row `p_y` starting at column
    /// `x0`, clipping at the right edge; reports whether a lit pixel was
    /// erased.
    fn draw_sprite_row(&mut self, p_y: usize, byte: u8, x0: usize) -> (hit: bool)
        requires
            p_y < 32,
            x0 < 64,
        ensures
            final(self)@ == (MachineView {
                fb: old(self)@.fb.update(
                    p_y as int,
                    drawn_row(old(self)@.fb[p_y as int], byte, x0 as int, 8),
                ),
                ..old(self)@
            }),
            hit == row_hit(old(self)@.fb[p_y as int], byte, x0 as int, 8),
    {
        let ghost row0 = self@.fb[p_y as int];
        let mut row = self.fb[p_y];
        let mut hit = false;
        proof {
            assert(row@ == row0);
            assert(row@ =~= drawn_row(row0, byte, x0 as int, 0));
            assert(!row_hit(row0, byte, x0 as int, 0));
        }
        for c in 0..8
            invariant
                x0 < 64,
                row0.len() == 64,
                row@ == drawn_row(row0, byte, x0 as int, c as int),
                hit == row_hit(row0, byte, x0 as int, c as int),
        {
            proof {
                lemma_row_unroll(row0, byte, x0 as int, c as int);
            }
            let p_x = x0 + c;
            if p_x < 64 {
                let sh: u8 = (7 - c) as u8;
                let bit = ((byte >> sh) & 1) == 1;
                proof {
                    assert(row@[p_x as int] == row0[p_x as int]);
                    assert(bit == sprite_bit(byte, c as int));
                }
                if row[p_x] && bit {
                    hit = true;
                }
                row[p_x] = row[p_x] ^ bit;
                proof {
                    assert(row@ =~= drawn_row(row0, byte, x0 as int, c as int + 1));
                }
            }
        }
        self.fb[p_y] = row;
        proof {
            assert(self@.fb =~~= old(self)@.fb.update(
                p_y as int,
                drawn_row(old(self)@.fb[p_y as int], byte, x0 as int, 8),
            ));
            assert(self@ =~= (MachineView {
                fb: old(self)@.fb.update(
                    p_y as int,
                    drawn_row(old(self)@.fb[p_y as int], byte, x0 as int, 8),
                ),
                ..old(self)@
            }));
        }
        hit
    }

    /// Dxyn: XOR-draw an `n`-row sprite read at the index register, anchored
    /// at (Vx mod 64, Vy mod 32); VF reports whether any pixel was erased.
    pub(crate) fn opcode_drw(&mut self, x: usize, y: usize, n: usize)
        requires
            x < 16,
            y < 16,
            n < 16,
        ensures
            final(self)@ == drw_spec(old(self)@, x as int, y as int, n as int),
    {
        self.v[0xf] = 0;
        let x0 = (self.v[x] as usize) % 64;
        let y0 = (self.v[y] as usize) % 32;
        let ghost fb0 = self@.fb;
        let ghost mem0 = self@.mem;
        let ghost i0 = self@.i;
        let ghost v1 = self@.v;
        proof {
            assert(v1.len() == 16);
            assert(self@.fb =~~= drawn_fb(fb0, mem0, i0, x0 as int, y0 as int, 0));
            assert(!draw_hit(fb0, mem0, i0, x0 as int, y0 as int, 0));
            assert(self@.v =~= v1.update(0xf, 0u8));
        }
        for j in 0..n
            invariant
                x < 16,
                y < 16,
                n < 16,
                x0 < 64,
                y0 < 32,
                fb0.len() == 32,
                forall|r: int| 0 <= r < 32 ==> (#[trigger] fb0[r]).len() == 64,
                v1.len() == 16,
                self@.fb == drawn_fb(fb0, mem0, i0, x0 as int, y0 as int, j as int),
                self@.v == v1.update(
                    0xf,
                    if draw_hit(fb0, mem0, i0, x0 as int, y0 as int, j as int) {
                        1u8
                    } else {
                        0u8
                    },
                ),
                self.mem == old(self).mem,
                self.i == old(self).i,
                self.dt == old(self).dt,
                self.st == old(self).st,
                self.pc == old(self).pc,
                self.sp == old(self).sp,
                self.stack == old(self).stack,
                self.keypad == old(self).keypad,
                mem0 == self@.mem,
                i0 == self@.i,
            decreases n - j,
        {
            proof {
                lemma_draw_unroll(fb0, mem0, i0, x0 as int, y0 as int, j as int);
            }
            let p_y = y0 + j;
            if p_y < 32 {
                let byte = self.mem[(self.i as usize + j) % MEM_SIZE];
                proof {
                    assert(byte == sprite_row(mem0, i0, j as int));
                    assert(self@.fb[p_y as int] == fb0[p_y as int]);
                }
                let hit = self.draw_sprite_row(p_y, byte, x0);
                if hit {
                    self.v[0xf] = 1;
                }
                proof {
                    assert(self@.fb =~~= drawn_fb(
                        fb0,
                        mem0,
                        i0,
                        x0 as int,
                        y0 as int,
                        j as int + 1,
                    ));
                    assert(self@.v =~= v1.update(
                        0xf,
                        if draw_hit(fb0, mem0, i0, x0 as int, y0 as int, j as int + 1) {
                            1u8
                        } else {
                            0u8
                        },
                    ));
                }
            }
        }
        proof {
            assert(self@ =~= drw_spec(old(self)@, x as int, y as int, n as int));
        }
    }
}

/// The lowest pressed key is the one a scan from slot zero stops at.
proof fn lemma_first_key(kp: Seq<bool>, k: int)
    requires
        0 <= k < 16,
        kp[k],
        forall|j: int| 0 <= j < k ==> !(#[trigger] kp[j]),
    ensures
        first_key_from(kp, 0) == k,
{
    lemma_first_key_from(kp, 0, k);
}

proof fn lemma_first_key_from(kp: Seq<bool>, m: int, k: int)
    requires
        0 <= m <= k < 16,
        kp[k],
        forall|j: int| m <= j < k ==> !(#[trigger] kp[j]),
    ensures
        first_key_from(kp, m) == k,
    decreases k - m,
{
    if m < k {
        lemma_first_key_from(kp, m + 1, k);
    }
}

/// Drawing one more pixel of a sprite row extends the partial row by one
/// cell and extends the erasure test by that cell.
proof fn lemma_row_unroll(row0: Seq<bool>, byte: u8, x0: int, k: int)
    requires
        row0.len() == 64,
        0 <= x0 < 64,
        0 <= k,
    ensures
        x0 + k < 64 ==> drawn_row(row0, byte, x0, k + 1) == drawn_row(row0, byte, x0, k).update(
            x0 + k,
            row0[x0 + k] ^ sprite_bit(byte, k),
        ),
        x0 + k >= 64 ==> drawn_row(row0, byte, x0, k + 1) == drawn_row(row0, byte, x0, k),
        row_hit(row0, byte, x0, k + 1) <==> (row_hit(row0, byte, x0, k) || (x0 + k < 64 && row0[x0
            + k] && sprite_bit(byte, k))),
{
    if x0 + k < 64 {
        assert(drawn_row(row0, byte, x0, k + 1) =~= drawn_row(row0, byte, x0, k).update(
            x0 + k,
            row0[x0 + k] ^ sprite_bit(byte, k),
        ));
    } else {
        assert(drawn_row(row0, byte, x0, k + 1) =~= drawn_row(row0, byte, x0, k));
    }
    if row_hit(row0, byte, x0, k + 1) {
        let c = choose|c: int|
            0 <= c < 64 && x0 <= c < x0 + k + 1 && #[trigger] row0[c] && sprite_bit(byte, c - x0);
        if c < x0 + k {
            assert(row_hit(row0, byte, x0, k));
        } else {
            assert(c == x0 + k);
        }
    }
    if row_hit(row0, byte, x0, k) {
        let c = choose|c: int|
            0 <= c < 64 && x0 <= c < x0 + k && #[trigger] row0[c] && sprite_bit(byte, c - x0);
        assert(row_hit(row0, byte, x0, k + 1));
    }
    if x0 + k < 64 && row0[x0 + k] && sprite_bit(byte, k) {
        assert(row_hit(row0, byte, x0, k + 1));
    }
}

/// Drawing one more sprite row rewrites exactly one framebuffer row (or
/// none, past the bottom edge) and extends the erasure test by that row.
proof fn lemma_draw_unroll(fb0: Seq<Seq<bool>>, mem: Seq<u8>, i: u16, x0: int, y0: int, j: int)
    requires
        fb0.len() == 32,
        forall|r: int| 0 <= r < 32 ==> (#[trigger] fb0[r]).len() == 64,
        0 <= x0 < 64,
        0 <= y0 < 32,
        0 <= j,
    ensures
        y0 + j < 32 ==> drawn_fb(fb0, mem, i, x0, y0, j + 1) == drawn_fb(
            fb0,
            mem,
            i,
            x0,
            y0,
            j,
        ).update(y0 + j, drawn_row(fb0[y0 + j], sprite_row(mem, i, j), x0, 8)),
        y0 + j >= 32 ==> drawn_fb(fb0, mem, i, x0, y0, j + 1) == drawn_fb(fb0, mem, i, x0, y0, j),
        draw_hit(fb0, mem, i, x0, y0, j + 1) <==> (draw_hit(fb0, mem, i, x0, y0, j) || (y0 + j < 32
            && row_hit(fb0[y0 + j], sprite_row(mem, i, j), x0, 8))),
{
    if y0 + j < 32 {
        assert(drawn_fb(fb0, mem, i, x0, y0, j + 1) =~~= drawn_fb(fb0, mem, i, x0, y0, j).update(
            y0 + j,
            drawn_row(fb0[y0 + j], sprite_row(mem, i, j), x0, 8),
        ));
    } else {
        assert(drawn_fb(fb0, mem, i, x0, y0, j + 1) =~~= drawn_fb(fb0, mem, i, x0, y0, j));
    }
    if draw_hit(fb0, mem, i, x0, y0, j + 1) {
        let (r, c) = choose|r: int, c: int|
            0 <= r < 32 && 0 <= c < 64 && #[trigger] draw_covers(x0, y0, j + 1, r, c) && fb0[r][c]
                && sprite_bit(sprite_row(mem, i, r - y0), c - x0);
        if r < y0 + j {
            assert(draw_covers(x0, y0, j, r, c));
            assert(draw_hit(fb0, mem, i, x0, y0, j));
        } else {
            assert(r == y0 + j);
            assert(row_hit(fb0[y0 + j], sprite_row(mem, i, j), x0, 8));
        }
    }
    if draw_hit(fb0, mem, i, x0, y0, j) {
        let (r, c) = choose|r: int, c: int|
            0 <= r < 32 && 0 <= c < 64 && #[trigger] draw_covers(x0, y0, j, r, c) && fb0[r][c]
                && sprite_bit(sprite_row(mem, i, r - y0), c - x0);
        assert(draw_covers(x0, y0, j + 1, r, c));
        assert(draw_hit(fb0, mem, i, x0, y0, j + 1));
    }
    if y0 + j < 32 && row_hit(fb0[y0 + j], sprite_row(mem, i, j), x0, 8) {
        let c = choose|c: int|
            0 <= c < 64 && x0 <= c < x0 + 8 && #[trigger] fb0[y0 + j][c] && sprite_bit(
                sprite_row(mem, i, j),
                c - x0,
            );
        assert(draw_covers(x0, y0, j + 1, y0 + j, c));
        assert(draw_hit(fb0, mem, i, x0, y0, j + 1));
    }
}

} // verus!
