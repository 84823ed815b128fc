use vstd::prelude::*;

use crate::constants::{FONT_LEN, FONT_OFFSET, MEM_SIZE, PROG_START, SCREEN_HEIGHT, SCREEN_WIDTH};
use crate::constants::font_image;
use crate::error::ChipError;

verus! {

/// Mathematical image of the whole machine. Every contract in the crate is
/// stated over values of this type; `Chip8`'s view function produces one.
#[verifier::ext_equal]
pub struct MachineView {
    pub mem: Seq<u8>,
    pub fb: Seq<Seq<bool>>,
    pub v: Seq<u8>,
    pub i: u16,
    pub dt: u8,
    pub st: u8,
    pub pc: u16,
    pub sp: int,
    pub stack: Seq<u16>,
    pub keypad: Seq<bool>,
}

/// Shape of a well-formed machine: fixed-size stores and a stack pointer
/// that stays inside the sixteen-entry stack.
pub open spec fn wf_view(s: MachineView) -> bool {
    &&& s.mem.len() == MEM_SIZE
    &&& s.fb.len() == SCREEN_HEIGHT
    &&& forall|y: int| 0 <= y < SCREEN_HEIGHT ==> (#[trigger] s.fb[y]).len() == SCREEN_WIDTH
    &&& s.v.len() == 16
    &&& s.stack.len() == 16
    &&& s.keypad.len() == 16
    &&& 0 <= s.sp <= 15
}

/// A framebuffer with every pixel off.
pub open spec fn blank_fb() -> Seq<Seq<bool>> {
    Seq::new(SCREEN_HEIGHT as nat, |y: int| Seq::new(SCREEN_WIDTH as nat, |x: int| false))
}

/// The machine exactly as construction and reset leave it: font in memory,
/// program counter at the program region, everything else zeroed.
pub open spec fn initial_view() -> MachineView {
    MachineView {
        mem: Seq::new(
            MEM_SIZE as nat,
            |a: int|
                if FONT_OFFSET as int <= a < FONT_OFFSET as int + FONT_LEN as int {
                    font_image()[a - FONT_OFFSET as int]
                } else {
                    0u8
                },
        ),
        fb: blank_fb(),
        v: Seq::new(16, |r: int| 0u8),
        i: 0,
        dt: 0,
        st: 0,
        pc: PROG_START as u16,
        sp: 0,
        stack: Seq::new(16, |s: int| 0u16),
        keypad: Seq::new(16, |k: int| false),
    }
}

/// Memory after a program of `rom` bytes is copied in at the program region.
pub open spec fn loaded_view(s: MachineView, rom: Seq<u8>) -> MachineView {
    MachineView {
        mem: Seq::new(
            MEM_SIZE as nat,
            |a: int|
                if PROG_START as int <= a < PROG_START as int + rom.len() {
                    rom[a - PROG_START as int]
                } else {
                    s.mem[a]
                },
        ),
        ..s
    }
}

// --- small state editors, shared by the opcode specifications and the
// --- debug surface's contracts

pub open spec fn with_reg(s: MachineView, x: int, val: u8) -> MachineView {
    MachineView { v: s.v.update(x, val), ..s }
}

pub open spec fn with_mem(s: MachineView, a: int, val: u8) -> MachineView {
    MachineView { mem: s.mem.update(a, val), ..s }
}

pub open spec fn with_pixel(s: MachineView, x: int, y: int, p: bool) -> MachineView {
    MachineView { fb: s.fb.update(y, s.fb[y].update(x, p)), ..s }
}

pub open spec fn with_i(s: MachineView, val: u16) -> MachineView {
    MachineView { i: val, ..s }
}

pub open spec fn with_dt(s: MachineView, val: u8) -> MachineView {
    MachineView { dt: val, ..s }
}

pub open spec fn with_st(s: MachineView, val: u8) -> MachineView {
    MachineView { st: val, ..s }
}

pub open spec fn with_pc(s: MachineView, val: u16) -> MachineView {
    MachineView { pc: val, ..s }
}

pub open spec fn with_sp(s: MachineView, val: int) -> MachineView {
    MachineView { sp: val, ..s }
}

pub open spec fn with_stack_at(s: MachineView, pos: int, val: u16) -> MachineView {
    MachineView { stack: s.stack.update(pos, val), ..s }
}

pub open spec fn with_key(s: MachineView, k: int, down: bool) -> MachineView {
    MachineView { keypad: s.keypad.update(k, down), ..s }
}

// --- decode helpers

pub open spec fn lo_nib_spec(b: u8) -> u8 {
    b & 0x0f
}

pub open spec fn hi_nib_spec(b: u8) -> u8 {
    (b & 0xf0) >> 4
}

/// The 12-bit address field of an instruction.
pub open spec fn nnn_of(hi: u8, lo: u8) -> u16 {
    (((hi & 0x0f) as u16) << 8) | (lo as u16)
}

// --- per-opcode transitions, each giving the state the handler leaves
// --- behind, before the step loop's uniform advance of the program counter
// --- by two

/// 00E0: clear the framebuffer.
pub open spec fn cls_spec(s: MachineView) -> MachineView {
    MachineView { fb: blank_fb(), ..s }
}

/// 00EE: pop the stack into the program counter. Returning with an empty
/// stack is a misuse and is reported rather than performed.
pub open spec fn ret_spec(s: MachineView) -> Result<MachineView, ChipError> {
    if s.sp == 0 {
        Err(ChipError::SpOutOfBounds(0))
    } else {
        Ok(MachineView { pc: s.stack[s.sp], sp: s.sp - 1, ..s })
    }
}

/// 1nnn: jump. The target less two, so that the uniform post-increment
/// lands exactly on the target.
pub open spec fn jp_spec(s: MachineView, a: u16) -> MachineView {
    MachineView { pc: a.wrapping_sub(2), ..s }
}

/// 2nnn: push the call site and jump, failing when the stack is full.
pub open spec fn call_spec(s: MachineView, a: u16) -> Result<MachineView, ChipError> {
    if s.sp >= 15 {
        Err(ChipError::SpOutOfBounds(s.sp as usize))
    } else {
        Ok(
            MachineView {
                sp: s.sp + 1,
                stack: s.stack.update(s.sp + 1, s.pc),
                pc: a.wrapping_sub(2),
                ..s
            },
        )
    }
}

/// Advance the program counter over the next instruction when `cond` holds.
pub open spec fn skip_if(s: MachineView, cond: bool) -> MachineView {
    if cond {
        MachineView { pc: s.pc.wrapping_add(2), ..s }
    } else {
        s
    }
}

/// 3xkk: skip when Vx equals the immediate byte.
pub open spec fn se_spec(s: MachineView, x: int, kk: u8) -> MachineView {
    skip_if(s, s.v[x] == kk)
}

/// 4xkk: skip when Vx differs from the immediate byte.
pub open spec fn sne_spec(s: MachineView, x: int, kk: u8) -> MachineView {
    skip_if(s, s.v[x] != kk)
}

/// 5xy0: skip when Vx equals Vy.
pub open spec fn se_r_spec(s: MachineView, x: int, y: int) -> MachineView {
    skip_if(s, s.v[x] == s.v[y])
}

/// 9xy0: skip when Vx differs from Vy.
pub open spec fn sne_r_spec(s: MachineView, x: int, y: int) -> MachineView {
    skip_if(s, s.v[x] != s.v[y])
}

/// 6xkk: load the immediate byte into Vx.
pub open spec fn ld_spec(s: MachineView, x: int, kk: u8) -> MachineView {
    with_reg(s, x, kk)
}

/// 7xkk: add the immediate byte to Vx, wrapping, with no flag.
pub open spec fn add_spec(s: MachineView, x: int, kk: u8) -> MachineView {
    with_reg(s, x, s.v[x].wrapping_add(kk))
}

/// 8xy0: copy Vy into Vx.
pub open spec fn ld_r_spec(s: MachineView, x: int, y: int) -> MachineView {
    with_reg(s, x, s.v[y])
}

/// 8xy1: bitwise OR.
pub open spec fn or_spec(s: MachineView, x: int, y: int) -> MachineView {
    with_reg(s, x, s.v[x] | s.v[y])
}

/// 8xy2: bitwise AND.
pub open spec fn and_spec(s: MachineView, x: int, y: int) -> MachineView {
    with_reg(s, x, s.v[x] & s.v[y])
}

/// 8xy3: bitwise XOR.
pub open spec fn xor_spec(s: MachineView, x: int, y: int) -> MachineView {
    with_reg(s, x, s.v[x] ^ s.v[y])
}

/// 8xy4: Vx += Vy; VF takes the carry first, the wrapped sum then lands in
/// Vx (and so wins when x is 0xF).
pub open spec fn add_r_spec(s: MachineView, x: int, y: int) -> MachineView {
    let carry: u8 = if s.v[x] + s.v[y] > 255 {
        1
    } else {
        0
    };
    with_reg(with_reg(s, 0xf, carry), x, s.v[x].wrapping_add(s.v[y]))
}

/// 8xy5: Vx -= Vy; VF is 1 exactly when no borrow occurred.
pub open spec fn sub_spec(s: MachineView, x: int, y: int) -> MachineView {
    let flag: u8 = if s.v[x] >= s.v[y] {
        1
    } else {
        0
    };
    with_reg(with_reg(s, 0xf, flag), x, s.v[x].wrapping_sub(s.v[y]))
}

/// 8xy7: Vx = Vy - Vx; VF is 1 exactly when no borrow occurred.
pub open spec fn subn_spec(s: MachineView, x: int, y: int) -> MachineView {
    let flag: u8 = if s.v[y] >= s.v[x] {
        1
    } else {
        0
    };
    with_reg(with_reg(s, 0xf, flag), x, s.v[y].wrapping_sub(s.v[x]))
}

/// 8xy6: VF takes bit 0 of Vx, then Vx shifts right once. When x is 0xF the
/// shift reads the just-written flag, exactly as the handler does.
pub open spec fn shr_spec(s: MachineView, x: int) -> MachineView {
    let s1 = with_reg(s, 0xf, s.v[x] & 1);
    with_reg(s1, x, s1.v[x] >> 1u8)
}

/// 8xyE: VF takes bit 7 of Vx, then Vx shifts left once, dropping the high
/// bit.
pub open spec fn shl_spec(s: MachineView, x: int) -> MachineView {
    let s1 = with_reg(s, 0xf, (s.v[x] >> 7u8) & 1);
    with_reg(s1, x, s1.v[x] << 1u8)
}

/// Annn: load the index register.
pub open spec fn ld_i_spec(s: MachineView, a: u16) -> MachineView {
    with_i(s, a)
}

/// Bnnn: jump to nnn plus V0, through the same less-two normalization.
pub open spec fn jp_r_spec(s: MachineView, a: u16) -> MachineView {
    MachineView { pc: a.wrapping_add(s.v[0] as u16).wrapping_sub(2), ..s }
}

/// Cxkk: a freshly drawn random byte, masked by the immediate byte.
pub open spec fn rnd_spec(s: MachineView, x: int, kk: u8, rnd: u8) -> MachineView {
    with_reg(s, x, rnd & kk)
}

// --- the draw primitive

/// Row `j` of the sprite, read at the index register plus `j`, the address
/// kept inside memory.
pub open spec fn sprite_row(mem: Seq<u8>, i: u16, j: int) -> u8 {
    mem[(i + j) % (MEM_SIZE as int)]
}

/// Bit `k` of a sprite row, leftmost pixel first.
pub open spec fn sprite_bit(b: u8, k: int) -> bool {
    ((b >> (7 - k) as u8) & 1) == 1
}

/// Whether the sprite anchored at (x0, y0) with `n` rows covers the screen
/// cell (r, c). Cells past the right or bottom edge never appear, because
/// the framebuffer holds no such cell: rows and columns clip, they do not
/// wrap.
pub open spec fn draw_covers(x0: int, y0: int, n: int, r: int, c: int) -> bool {
    y0 <= r < y0 + n && x0 <= c < x0 + 8
}

/// The framebuffer after the sprite is XOR-drawn: covered cells flip where
/// the sprite bit is set, every other cell keeps its value.
pub open spec fn drawn_fb(
    fb: Seq<Seq<bool>>,
    mem: Seq<u8>,
    i: u16,
    x0: int,
    y0: int,
    n: int,
) -> Seq<Seq<bool>> {
    Seq::new(
        SCREEN_HEIGHT as nat,
        |r: int|
            Seq::new(
                SCREEN_WIDTH as nat,
                |c: int|
                    if draw_covers(x0, y0, n, r, c) {
                        fb[r][c] ^ sprite_bit(sprite_row(mem, i, r - y0), c - x0)
                    } else {
                        fb[r][c]
                    },
            ),
    )
}

/// One framebuffer row after the sprite row's first `k` pixels are
/// XOR-drawn from column `x0`, columns past the right edge clipped.
pub open spec fn drawn_row(row: Seq<bool>, byte: u8, x0: int, k: int) -> Seq<bool> {
    Seq::new(
        SCREEN_WIDTH as nat,
        |c: int|
            if x0 <= c < x0 + k {
                row[c] ^ sprite_bit(byte, c - x0)
            } else {
                row[c]
            },
    )
}

/// Whether XOR-drawing the sprite row's first `k` pixels erases a pixel of
/// `row`.
pub open spec fn row_hit(row: Seq<bool>, byte: u8, x0: int, k: int) -> bool {
    exists|c: int|
        0 <= c < SCREEN_WIDTH && x0 <= c < x0 + k && #[trigger] row[c] && sprite_bit(byte, c - x0)
}

/// Whether the draw erases any pixel: some covered cell is lit both in the
/// framebuffer and in the sprite.
pub open spec fn draw_hit(
    fb: Seq<Seq<bool>>,
    mem: Seq<u8>,
    i: u16,
    x0: int,
    y0: int,
    n: int,
) -> bool {
    exists|r: int, c: int|
        0 <= r < SCREEN_HEIGHT && 0 <= c < SCREEN_WIDTH && #[trigger] draw_covers(x0, y0, n, r, c)
            && fb[r][c] && sprite_bit(sprite_row(mem, i, r - y0), c - x0)
}

/// Dxyn: VF is reset first, the base coordinates are then read modulo the
/// screen size (so a draw with x or y equal to 0xF anchors at 0), the
/// sprite is XOR-drawn, and VF reports whether any pixel was erased.
pub open spec fn drw_spec(s: MachineView, x: int, y: int, n: int) -> MachineView {
    let s1 = with_reg(s, 0xf, 0);
    let x0: int = (s1.v[x] % 64) as int;
    let y0: int = (s1.v[y] % 32) as int;
    let hit = draw_hit(s1.fb, s1.mem, s1.i, x0, y0, n);
    MachineView {
        fb: drawn_fb(s1.fb, s1.mem, s1.i, x0, y0, n),
        v: s1.v.update(
            0xf,
            if hit {
                1u8
            } else {
                0u8
            },
        ),
        ..s
    }
}

// --- keypad opcodes

/// The key slot an Ex-family opcode tests: the low nibble of Vx.
pub open spec fn key_of(s: MachineView, x: int) -> int {
    (s.v[x] & 0x0f) as int
}

/// Ex9E: skip when the key named by Vx is down.
pub open spec fn skp_spec(s: MachineView, x: int) -> MachineView {
    skip_if(s, s.keypad[key_of(s, x)])
}

/// ExA1: skip when the key named by Vx is up.
pub open spec fn sknp_spec(s: MachineView, x: int) -> MachineView {
    skip_if(s, !s.keypad[key_of(s, x)])
}

/// Whether any of the sixteen keys is down.
pub open spec fn any_key_down(kp: Seq<bool>) -> bool {
    exists|k: int| 0 <= k < 16 && #[trigger] kp[k]
}

/// The lowest pressed key at or after slot `k`; 16 when none is.
pub open spec fn first_key_from(kp: Seq<bool>, k: int) -> int
    decreases 16 - k,
{
    if k < 0 || k >= 16 {
        16
    } else if kp[k] {
        k
    } else {
        first_key_from(kp, k + 1)
    }
}

/// Fx0A: with no key down, step the program counter back so the same
/// instruction is fetched again; once a key is down, the lowest pressed
/// index lands in Vx and execution proceeds.
pub open spec fn ld_k_spec(s: MachineView, x: int) -> MachineView {
    if !any_key_down(s.keypad) {
        MachineView { pc: s.pc.wrapping_sub(2), ..s }
    } else {
        with_reg(s, x, first_key_from(s.keypad, 0) as u8)
    }
}

// --- timer, index and memory opcodes

/// Fx07: read the delay timer into Vx.
pub open spec fn ld_dt_spec(s: MachineView, x: int) -> MachineView {
    with_reg(s, x, s.dt)
}

/// Fx15: load the delay timer from Vx.
pub open spec fn ld_dt_r_spec(s: MachineView, x: int) -> MachineView {
    with_dt(s, s.v[x])
}

/// Fx18: load the sound timer from Vx.
pub open spec fn ld_st_spec(s: MachineView, x: int) -> MachineView {
    with_st(s, s.v[x])
}

/// Fx1E: index += Vx, wrapping, with no bounds enforcement.
pub open spec fn add_i_spec(s: MachineView, x: int) -> MachineView {
    with_i(s, s.i.wrapping_add(s.v[x] as u16))
}

/// Fx29: point the index register at the font glyph for Vx's value.
pub open spec fn ld_digit_spec(s: MachineView, x: int) -> MachineView {
    with_i(s, (FONT_OFFSET + 5 * s.v[x]) as u16)
}

/// Fx33: write the decimal digits of Vx — hundreds, tens, units — at the
/// index register, each address kept inside memory.
pub open spec fn ld_bcd_spec(s: MachineView, x: int) -> MachineView {
    let a0: int = (s.i + 0) % (MEM_SIZE as int);
    let a1: int = (s.i + 1) % (MEM_SIZE as int);
    let a2: int = (s.i + 2) % (MEM_SIZE as int);
    MachineView {
        mem: s.mem.update(a0, s.v[x] / 100).update(a1, (s.v[x] % 100) / 10).update(
            a2,
            s.v[x] % 10,
        ),
        ..s
    }
}

/// Memory after registers V0..=Vr are stored at consecutive addresses from
/// `i`, each address kept inside memory.
pub open spec fn store_span(mem: Seq<u8>, v: Seq<u8>, i: u16, r: int) -> Seq<u8>
    decreases r + 1,
{
    if r < 0 {
        mem
    } else {
        store_span(mem, v, i, r - 1).update((i + r) % (MEM_SIZE as int), v[r])
    }
}

/// Fx55: bulk-store V0..=Vx to memory at the index register.
pub open spec fn mass_store_spec(s: MachineView, x: int) -> MachineView {
    MachineView { mem: store_span(s.mem, s.v, s.i, x), ..s }
}

/// Fx65: bulk-load V0..=Vx from memory at the index register; registers
/// past Vx keep their values.
pub open spec fn mass_load_spec(s: MachineView, x: int) -> MachineView {
    MachineView {
        v: Seq::new(
            16,
            |r: int|
                if r <= x {
                    s.mem[(s.i + r) % (MEM_SIZE as int)]
                } else {
                    s.v[r]
                },
        ),
        ..s
    }
}

// --- the step transition

/// Classify the fetched opcode and apply its handler. `rnd` is the byte the
/// random source hands a Cxkk opcode; every other family ignores it.
pub open spec fn dispatch_spec(s: MachineView, rnd: u8, hi: u8, lo: u8) -> Result<
    MachineView,
    ChipError,
> {
    let op: u16 = ((hi as u16) << 8u16) | (lo as u16);
    let x: int = lo_nib_spec(hi) as int;
    let y: int = hi_nib_spec(lo) as int;
    let fam: u8 = hi & 0xf0;
    if fam == 0x00 {
        if lo == 0xe0 {
            Ok(cls_spec(s))
        } else if lo == 0xee {
            ret_spec(s)
        } else {
            Err(ChipError::UnrecognizedOpcode(op))
        }
    } else if fam == 0x10 {
        Ok(jp_spec(s, nnn_of(hi, lo)))
    } else if fam == 0x20 {
        call_spec(s, nnn_of(hi, lo))
    } else if fam == 0x30 {
        Ok(se_spec(s, x, lo))
    } else if fam == 0x40 {
        Ok(sne_spec(s, x, lo))
    } else if fam == 0x50 {
        Ok(se_r_spec(s, x, y))
    } else if fam == 0x60 {
        Ok(ld_spec(s, x, lo))
    } else if fam == 0x70 {
        Ok(add_spec(s, x, lo))
    } else if fam == 0x80 {
        let sub: u8 = lo_nib_spec(lo);
        if sub == 0x00 {
            Ok(ld_r_spec(s, x, y))
        } else if sub == 0x01 {
            Ok(or_spec(s, x, y))
        } else if sub == 0x02 {
            Ok(and_spec(s, x, y))
        } else if sub == 0x03 {
            Ok(xor_spec(s, x, y))
        } else if sub == 0x04 {
            Ok(add_r_spec(s, x, y))
        } else if sub == 0x05 {
            Ok(sub_spec(s, x, y))
        } else if sub == 0x06 {
            Ok(shr_spec(s, x))
        } else if sub == 0x07 {
            Ok(subn_spec(s, x, y))
        } else if sub == 0x0e {
            Ok(shl_spec(s, x))
        } else {
            Err(ChipError::UnrecognizedOpcode(op))
        }
    } else if fam == 0x90 {
        Ok(sne_r_spec(s, x, y))
    } else if fam == 0xa0 {
        Ok(ld_i_spec(s, nnn_of(hi, lo)))
    } else if fam == 0xb0 {
        Ok(jp_r_spec(s, nnn_of(hi, lo)))
    } else if fam == 0xc0 {
        Ok(rnd_spec(s, x, lo, rnd))
    } else if fam == 0xd0 {
        Ok(drw_spec(s, x, y, lo_nib_spec(lo) as int))
    } else if fam == 0xe0 {
        if lo == 0x9e {
            Ok(skp_spec(s, x))
        } else if lo == 0xa1 {
            Ok(sknp_spec(s, x))
        } else {
            Err(ChipError::UnrecognizedOpcode(op))
        }
    } else if fam == 0xf0 {
        if lo == 0x07 {
            Ok(ld_dt_spec(s, x))
        } else if lo == 0x0a {
            Ok(ld_k_spec(s, x))
        } else if lo == 0x15 {
            Ok(ld_dt_r_spec(s, x))
        } else if lo == 0x18 {
            Ok(ld_st_spec(s, x))
        } else if lo == 0x1e {
            Ok(add_i_spec(s, x))
        } else if lo == 0x29 {
            Ok(ld_digit_spec(s, x))
        } else if lo == 0x33 {
            Ok(ld_bcd_spec(s, x))
        } else if lo == 0x55 {
            Ok(mass_store_spec(s, x))
        } else if lo == 0x65 {
            Ok(mass_load_spec(s, x))
        } else {
            Err(ChipError::UnrecognizedOpcode(op))
        }
    } else {
        Err(ChipError::UnrecognizedOpcode(op))
    }
}

/// One fetch-decode-execute transition. The two instruction bytes must both
/// lie in memory; after the handler runs, the program counter uniformly
/// advances by two (control-flow handlers pre-subtracted two to land where
/// they aimed). The successful result carries the executed opcode.
pub open spec fn step_spec(s: MachineView, rnd: u8) -> Result<(MachineView, u16), ChipError> {
    if s.pc + 1 >= MEM_SIZE {
        Err(ChipError::PcOutOfBounds(s.pc))
    } else {
        let hi: u8 = s.mem[s.pc as int];
        let lo: u8 = s.mem[s.pc as int + 1];
        let op: u16 = ((hi as u16) << 8u16) | (lo as u16);
        match dispatch_spec(s, rnd, hi, lo) {
            Err(e) => Err(e),
            Ok(h) => Ok((MachineView { pc: h.pc.wrapping_add(2), ..h }, op)),
        }
    }
}

/// Both timers decay by one per frame, stopping at zero.
pub open spec fn tick_timers(s: MachineView) -> MachineView {
    MachineView {
        dt: if s.dt > 0 {
            (s.dt - 1) as u8
        } else {
            0
        },
        st: if s.st > 0 {
            (s.st - 1) as u8
        } else {
            0
        },
        ..s
    }
}

/// A frame's burst of steps, one random byte per slot: run until the budget
/// is spent, a draw opcode completes, or a step fails. The error carries
/// the state the failing step left untouched.
pub open spec fn run_steps(s: MachineView, rnds: Seq<u8>) -> Result<
    MachineView,
    (MachineView, ChipError),
>
    decreases rnds.len(),
{
    if rnds.len() == 0 {
        Ok(s)
    } else {
        match step_spec(s, rnds[0]) {
            Err(e) => Err((s, e)),
            Ok((s2, op)) => if op & 0xf000 == 0xd000 {
                Ok(s2)
            } else {
                run_steps(s2, rnds.drop_first())
            },
        }
    }
}

} // verus!
