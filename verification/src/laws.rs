use vstd::prelude::*;

use crate::model::{
    any_key_down, draw_covers, draw_hit, drawn_fb, first_key_from, hi_nib_spec, lo_nib_spec,
    mass_load_spec, mass_store_spec, nnn_of, sprite_bit, sprite_row, step_spec, store_span,
    wf_view, with_pc, MachineView,
};

verus! {

/// A jump lands exactly on its target: from any well-formed state whose
/// next instruction is 1nnn, one step changes the program counter to `nnn`
/// itself (not `nnn + 2`) and nothing else.
pub proof fn lemma_jump_lands_exactly(s: MachineView, rnd: u8)
    requires
        wf_view(s),
        s.pc + 1 < 4096,
        s.mem[s.pc as int] & 0xf0 == 0x10,
    ensures
        ({
            let hi = s.mem[s.pc as int];
            let lo = s.mem[s.pc as int + 1];
            step_spec(s, rnd) matches Ok(p) && p.0 == with_pc(s, nnn_of(hi, lo))
        }),
{
    let hi = s.mem[s.pc as int];
    let lo = s.mem[s.pc as int + 1];
    let a = nnn_of(hi, lo);
    assert(a.wrapping_sub(2).wrapping_add(2) == a);
    assert(step_spec(s, rnd) matches Ok(p) && p.0 =~= with_pc(s, nnn_of(hi, lo)));
}

/// A call followed by a return comes back to exactly two bytes past the
/// call site: the call pushes its own address and lands on its target, and
/// a later return — from any state that still holds the pushed frame —
/// leaves the program counter at the call site plus two.
pub proof fn lemma_call_then_return(s: MachineView, t: MachineView, r1: u8, r2: u8)
    requires
        wf_view(s),
        wf_view(t),
        s.pc + 1 < 4096,
        s.mem[s.pc as int] & 0xf0 == 0x20,
        s.sp < 15,
        t.sp == s.sp + 1,
        t.stack == s.stack.update(s.sp + 1, s.pc),
        t.pc + 1 < 4096,
        t.mem[t.pc as int] == 0x00,
        t.mem[t.pc as int + 1] == 0xee,
    ensures
        step_spec(s, r1) matches Ok(p) && p.0.pc == nnn_of(
            s.mem[s.pc as int],
            s.mem[s.pc as int + 1],
        ) && p.0.sp == s.sp + 1 && p.0.stack == s.stack.update(s.sp + 1, s.pc),
        step_spec(t, r2) matches Ok(q) && q.0.pc == s.pc + 2 && q.0.sp == s.sp,
{
    let a = nnn_of(s.mem[s.pc as int], s.mem[s.pc as int + 1]);
    assert(a.wrapping_sub(2).wrapping_add(2) == a);
    assert(0x00u8 & 0xf0 == 0x00) by (bit_vector);
    assert(t.stack[t.sp] == s.pc);
}

/// A skip-on-equal-immediate opcode (3xkk) advances the program counter by
/// four exactly when Vx equals kk, else by two.
pub proof fn lemma_skip_eq_immediate(s: MachineView, rnd: u8)
    requires
        wf_view(s),
        s.pc + 1 < 4096,
        s.mem[s.pc as int] & 0xf0 == 0x30,
    ensures
        ({
            let x = lo_nib_spec(s.mem[s.pc as int]) as int;
            let kk = s.mem[s.pc as int + 1];
            step_spec(s, rnd) matches Ok(p) && p.0.pc == s.pc + (if s.v[x] == kk {
                4int
            } else {
                2int
            })
        }),
{
}

/// A skip-on-unequal-immediate opcode (4xkk) advances the program counter
/// by four exactly when Vx differs from kk, else by two.
pub proof fn lemma_skip_ne_immediate(s: MachineView, rnd: u8)
    requires
        wf_view(s),
        s.pc + 1 < 4096,
        s.mem[s.pc as int] & 0xf0 == 0x40,
    ensures
        ({
            let x = lo_nib_spec(s.mem[s.pc as int]) as int;
            let kk = s.mem[s.pc as int + 1];
            step_spec(s, rnd) matches Ok(p) && p.0.pc == s.pc + (if s.v[x] != kk {
                4int
            } else {
                2int
            })
        }),
{
}

/// A skip-on-equal-registers opcode (5xy0) advances the program counter by
/// four exactly when Vx equals Vy, else by two.
pub proof fn lemma_skip_eq_regs(s: MachineView, rnd: u8)
    requires
        wf_view(s),
        s.pc + 1 < 4096,
        s.mem[s.pc as int] & 0xf0 == 0x50,
    ensures
        ({
            let x = lo_nib_spec(s.mem[s.pc as int]) as int;
            let y = hi_nib_spec(s.mem[s.pc as int + 1]) as int;
            step_spec(s, rnd) matches Ok(p) && p.0.pc == s.pc + (if s.v[x] == s.v[y] {
                4int
            } else {
                2int
            })
        }),
{
}

/// A skip-on-unequal-registers opcode (9xy0) advances the program counter
/// by four exactly when Vx differs from Vy, else by two.
pub proof fn lemma_skip_ne_regs(s: MachineView, rnd: u8)
    requires
        wf_view(s),
        s.pc + 1 < 4096,
        s.mem[s.pc as int] & 0xf0 == 0x90,
    ensures
        ({
            let x = lo_nib_spec(s.mem[s.pc as int]) as int;
            let y = hi_nib_spec(s.mem[s.pc as int + 1]) as int;
            step_spec(s, rnd) matches Ok(p) && p.0.pc == s.pc + (if s.v[x] != s.v[y] {
                4int
            } else {
                2int
            })
        }),
{
}

/// A skip-if-key-down opcode (Ex9E) advances the program counter by four
/// exactly when the key named by Vx's low nibble is pressed, else by two.
pub proof fn lemma_skip_key_down(s: MachineView, rnd: u8)
    requires
        wf_view(s),
        s.pc + 1 < 4096,
        s.mem[s.pc as int] & 0xf0 == 0xe0,
        s.mem[s.pc as int + 1] == 0x9e,
    ensures
        ({
            let x = lo_nib_spec(s.mem[s.pc as int]) as int;
            step_spec(s, rnd) matches Ok(p) && p.0.pc == s.pc + (if s.keypad[(s.v[x]
                & 0x0f) as int] {
                4int
            } else {
                2int
            })
        }),
{
}

/// A skip-if-key-up opcode (ExA1) advances the program counter by four
/// exactly when the key named by Vx's low nibble is not pressed, else by
/// two.
pub proof fn lemma_skip_key_up(s: MachineView, rnd: u8)
    requires
        wf_view(s),
        s.pc + 1 < 4096,
        s.mem[s.pc as int] & 0xf0 == 0xe0,
        s.mem[s.pc as int + 1] == 0xa1,
    ensures
        ({
            let x = lo_nib_spec(s.mem[s.pc as int]) as int;
            step_spec(s, rnd) matches Ok(p) && p.0.pc == s.pc + (if !s.keypad[(s.v[x]
                & 0x0f) as int] {
                4int
            } else {
                2int
            })
        }),
{
}

/// 8xy4 sets VF to one exactly when the unsigned sum exceeds 255, and
/// stores the sum wrapped modulo 256 in Vx. The flag clause asks x not to
/// be 0xF: there the wrapped sum overwrites the flag.
pub proof fn lemma_add_sets_carry(s: MachineView, rnd: u8)
    requires
        wf_view(s),
        s.pc + 1 < 4096,
        s.mem[s.pc as int] & 0xf0 == 0x80,
        s.mem[s.pc as int + 1] & 0x0f == 0x04,
        lo_nib_spec(s.mem[s.pc as int]) != 0xf,
    ensures
        ({
            let x = lo_nib_spec(s.mem[s.pc as int]) as int;
            let y = hi_nib_spec(s.mem[s.pc as int + 1]) as int;
            step_spec(s, rnd) matches Ok(p) && p.0.v[x] == (s.v[x] + s.v[y]) % 256 && p.0.v[0xf]
                == (if s.v[x] + s.v[y] > 255 {
                1u8
            } else {
                0u8
            })
        }),
{
    let hi = s.mem[s.pc as int];
    let lo = s.mem[s.pc as int + 1];
    assert(hi & 0x0f < 16 && (lo & 0xf0) >> 4 < 16) by (bit_vector);
    let x = lo_nib_spec(hi) as int;
    let y = hi_nib_spec(lo) as int;
    let a = s.v[x] + s.v[y];
    if a > 255 {
        vstd::arithmetic::div_mod::lemma_mod_sub_multiples_vanish(a, 256);
        vstd::arithmetic::div_mod::lemma_small_mod((a - 256) as nat, 256);
    } else {
        vstd::arithmetic::div_mod::lemma_small_mod(a as nat, 256);
    }
}

/// 8xy5 sets VF to one exactly when no borrow occurred (Vx at least Vy),
/// and stores the difference wrapped modulo 256 in Vx; x may not be 0xF,
/// where the difference overwrites the flag.
pub proof fn lemma_sub_sets_not_borrow(s: MachineView, rnd: u8)
    requires
        wf_view(s),
        s.pc + 1 < 4096,
        s.mem[s.pc as int] & 0xf0 == 0x80,
        s.mem[s.pc as int + 1] & 0x0f == 0x05,
        lo_nib_spec(s.mem[s.pc as int]) != 0xf,
    ensures
        ({
            let x = lo_nib_spec(s.mem[s.pc as int]) as int;
            let y = hi_nib_spec(s.mem[s.pc as int + 1]) as int;
            step_spec(s, rnd) matches Ok(p) && p.0.v[x] == (s.v[x] - s.v[y] + 256) % 256
                && p.0.v[0xf] == (if s.v[x] >= s.v[y] {
                1u8
            } else {
                0u8
            })
        }),
{
    let hi = s.mem[s.pc as int];
    let lo = s.mem[s.pc as int + 1];
    assert(hi & 0x0f < 16 && (lo & 0xf0) >> 4 < 16) by (bit_vector);
    let x = lo_nib_spec(hi) as int;
    let y = hi_nib_spec(lo) as int;
    if s.v[x] >= s.v[y] {
        let d = s.v[x] - s.v[y];
        vstd::arithmetic::div_mod::lemma_mod_add_multiples_vanish(d, 256);
        vstd::arithmetic::div_mod::lemma_small_mod(d as nat, 256);
    } else {
        vstd::arithmetic::div_mod::lemma_small_mod((s.v[x] - s.v[y] + 256) as nat, 256);
    }
}

/// 8xy7 sets VF to one exactly when no borrow occurred (Vy at least Vx),
/// and stores Vy minus Vx wrapped modulo 256 in Vx; x may not be 0xF.
pub proof fn lemma_subn_sets_not_borrow(s: MachineView, rnd: u8)
    requires
        wf_view(s),
        s.pc + 1 < 4096,
        s.mem[s.pc as int] & 0xf0 == 0x80,
        s.mem[s.pc as int + 1] & 0x0f == 0x07,
        lo_nib_spec(s.mem[s.pc as int]) != 0xf,
    ensures
        ({
            let x = lo_nib_spec(s.mem[s.pc as int]) as int;
            let y = hi_nib_spec(s.mem[s.pc as int + 1]) as int;
            step_spec(s, rnd) matches Ok(p) && p.0.v[x] == (s.v[y] - s.v[x] + 256) % 256
                && p.0.v[0xf] == (if s.v[y] >= s.v[x] {
                1u8
            } else {
                0u8
            })
        }),
{
    let hi = s.mem[s.pc as int];
    let lo = s.mem[s.pc as int + 1];
    assert(hi & 0x0f < 16 && (lo & 0xf0) >> 4 < 16) by (bit_vector);
    let x = lo_nib_spec(hi) as int;
    let y = hi_nib_spec(lo) as int;
    if s.v[y] >= s.v[x] {
        let d = s.v[y] - s.v[x];
        vstd::arithmetic::div_mod::lemma_mod_add_multiples_vanish(d, 256);
        vstd::arithmetic::div_mod::lemma_small_mod(d as nat, 256);
    } else {
        vstd::arithmetic::div_mod::lemma_small_mod((s.v[y] - s.v[x] + 256) as nat, 256);
    }
}

/// 8xy6 stores the evicted low bit of Vx in VF before shifting Vx right
/// once; x may not be 0xF, where the shift reads the just-written flag.
pub proof fn lemma_shr_evicts_low_bit(s: MachineView, rnd: u8)
    requires
        wf_view(s),
        s.pc + 1 < 4096,
        s.mem[s.pc as int] & 0xf0 == 0x80,
        s.mem[s.pc as int + 1] & 0x0f == 0x06,
        lo_nib_spec(s.mem[s.pc as int]) != 0xf,
    ensures
        ({
            let x = lo_nib_spec(s.mem[s.pc as int]) as int;
            step_spec(s, rnd) matches Ok(p) && p.0.v[x] == s.v[x] >> 1u8 && p.0.v[0xf] == (s.v[x]
                & 1)
        }),
{
    let hi = s.mem[s.pc as int];
    assert(hi & 0x0f < 16) by (bit_vector);
}

/// 8xyE stores the evicted high bit of Vx in VF before shifting Vx left
/// once; x may not be 0xF, where the shift reads the just-written flag.
pub proof fn lemma_shl_evicts_high_bit(s: MachineView, rnd: u8)
    requires
        wf_view(s),
        s.pc + 1 < 4096,
        s.mem[s.pc as int] & 0xf0 == 0x80,
        s.mem[s.pc as int + 1] & 0x0f == 0x0e,
        lo_nib_spec(s.mem[s.pc as int]) != 0xf,
    ensures
        ({
            let x = lo_nib_spec(s.mem[s.pc as int]) as int;
            step_spec(s, rnd) matches Ok(p) && p.0.v[x] == s.v[x] << 1u8 && p.0.v[0xf] == ((s.v[x]
                >> 7u8) & 1)
        }),
{
    let hi = s.mem[s.pc as int];
    assert(hi & 0x0f < 16) by (bit_vector);
}

/// Addresses `i + r1` and `i + r2` land on different memory cells when the
/// offsets differ by less than the memory size.
proof fn lemma_span_addrs_distinct(i: u16, r1: int, r2: int)
    requires
        0 <= r1 < r2 < 4096,
    ensures
        (i + r1) % 4096 != (i + r2) % 4096,
{
    let b = (i as int) % 4096;
    assert((i + r1) % 4096 == (b + r1) % 4096 && (i + r2) % 4096 == (b + r2) % 4096) by {
        vstd::arithmetic::div_mod::lemma_add_mod_noop(i as int, r1, 4096);
        vstd::arithmetic::div_mod::lemma_add_mod_noop(i as int, r2, 4096);
        vstd::arithmetic::div_mod::lemma_small_mod(r1 as nat, 4096);
        vstd::arithmetic::div_mod::lemma_small_mod(r2 as nat, 4096);
        vstd::arithmetic::div_mod::lemma_mod_twice(i as int + r1, 4096);
        vstd::arithmetic::div_mod::lemma_mod_twice(i as int + r2, 4096);
    }
    if b + r1 < 4096 {
        vstd::arithmetic::div_mod::lemma_small_mod((b + r1) as nat, 4096);
    } else {
        vstd::arithmetic::div_mod::lemma_mod_sub_multiples_vanish(b + r1, 4096);
        vstd::arithmetic::div_mod::lemma_small_mod((b + r1 - 4096) as nat, 4096);
    }
    if b + r2 < 4096 {
        vstd::arithmetic::div_mod::lemma_small_mod((b + r2) as nat, 4096);
    } else {
        vstd::arithmetic::div_mod::lemma_mod_sub_multiples_vanish(b + r2, 4096);
        vstd::arithmetic::div_mod::lemma_small_mod((b + r2 - 4096) as nat, 4096);
    }
}

/// The memory cell that slot `r` of a register span starting at `i` lands
/// on.
pub open spec fn span_addr(i: u16, r: int) -> int {
    (i + r) % 4096
}

/// Whether address `a` lies outside the span of cells that a bulk store of
/// V0..=Vx at `i` writes.
pub open spec fn outside_store_span(i: u16, x: int, a: int) -> bool {
    forall|r: int| 0 <= r <= x ==> a != #[trigger] span_addr(i, r)
}

/// A bulk store writes exactly registers V0..=Vx to consecutive cells from
/// the index register: cell `i + r` holds Vr, and every other cell keeps
/// its byte.
pub proof fn lemma_store_span_effect(mem: Seq<u8>, v: Seq<u8>, i: u16, x: int)
    requires
        mem.len() == 4096,
        v.len() == 16,
        0 <= x < 16,
    ensures
        store_span(mem, v, i, x).len() == 4096,
        forall|r: int| 0 <= r <= x ==> store_span(mem, v, i, x)[#[trigger] span_addr(i, r)] == v[r],
        forall|a: int|
            0 <= a < 4096 && #[trigger] outside_store_span(i, x, a) ==> store_span(
                mem,
                v,
                i,
                x,
            )[a] == mem[a],
    decreases x,
{
    if x == 0 {
        reveal_with_fuel(store_span, 2);
        vstd::arithmetic::div_mod::lemma_mod_bound(i as int, 4096);
        assert(store_span(mem, v, i, 0)[span_addr(i, 0)] == v[0]);
        assert forall|a: int| 0 <= a < 4096 && #[trigger] outside_store_span(i, 0, a) implies
            store_span(mem, v, i, 0)[a] == mem[a] by {
            assert(a != span_addr(i, 0));
        }
    } else {
        lemma_store_span_effect(mem, v, i, x - 1);
        assert forall|r: int| 0 <= r <= x implies store_span(mem, v, i, x)[#[trigger] span_addr(
            i,
            r,
        )] == v[r] by {
            if r < x {
                lemma_span_addrs_distinct(i, r, x);
            }
        }
        assert forall|a: int| 0 <= a < 4096 && #[trigger] outside_store_span(i, x, a) implies
            store_span(mem, v, i, x)[a] == mem[a] by {
            assert(outside_store_span(i, x - 1, a));
            assert(a != span_addr(i, x));
        }
    }
}

/// Bulk store then bulk load round-trips: loading into any register file
/// `u` after storing V0..=Vx reproduces V0..=Vx and leaves the registers
/// past Vx — V(x+1) among them — exactly as `u` had them; and the store
/// touched no memory cell outside its span.
pub proof fn lemma_bulk_round_trip(s: MachineView, x: int, u: Seq<u8>)
    requires
        wf_view(s),
        0 <= x < 16,
        u.len() == 16,
    ensures
        ({
            let stored = mass_store_spec(s, x);
            let reloaded = mass_load_spec((MachineView { v: u, ..stored }), x);
            &&& forall|r: int| 0 <= r <= x ==> reloaded.v[r] == s.v[r]
            &&& forall|r: int| x < r < 16 ==> reloaded.v[r] == u[r]
            &&& forall|r: int| 0 <= r <= x ==> stored.mem[#[trigger] span_addr(s.i, r)] == s.v[r]
            &&& forall|a: int|
                0 <= a < 4096 && #[trigger] outside_store_span(s.i, x, a) ==> stored.mem[a]
                    == s.mem[a]
        }),
{
    lemma_store_span_effect(s.mem, s.v, s.i, x);
    let stored = mass_store_spec(s, x);
    let reloaded = mass_load_spec((MachineView { v: u, ..stored }), x);
    assert forall|r: int| 0 <= r <= x implies reloaded.v[r] == s.v[r] by {
        assert(stored.mem[span_addr(s.i, r)] == s.v[r]);
    }
}

/// A key-wait opcode (Fx0A) with no key down leaves the machine exactly as
/// it was — the same instruction is fetched again on every further step —
/// and with some key down it loads the lowest pressed index into Vx and
/// moves on.
pub proof fn lemma_key_wait(s: MachineView, rnd: u8)
    requires
        wf_view(s),
        s.pc + 1 < 4096,
        s.mem[s.pc as int] & 0xf0 == 0xf0,
        s.mem[s.pc as int + 1] == 0x0a,
    ensures
        !any_key_down(s.keypad) ==> (step_spec(s, rnd) matches Ok(p) && p.0 == s),
        any_key_down(s.keypad) ==> (step_spec(s, rnd) matches Ok(p) && {
            let x = lo_nib_spec(s.mem[s.pc as int]) as int;
            &&& p.0.v[x] == first_key_from(s.keypad, 0) as u8
            &&& p.0.pc == s.pc + 2
        }),
{
    let hi = s.mem[s.pc as int];
    assert(hi & 0x0f < 16) by (bit_vector);
    if !any_key_down(s.keypad) {
        assert(s.pc.wrapping_sub(2).wrapping_add(2) == s.pc);
        assert(step_spec(s, rnd) matches Ok(p) && p.0 =~= s);
    }
}

/// Whether the sprite would light any pixel at all on the screen area it
/// covers.
pub open spec fn draw_sets_some_pixel(mem: Seq<u8>, i: u16, x0: int, y0: int, n: int) -> bool {
    exists|r: int, c: int|
        0 <= r < 32 && 0 <= c < 64 && #[trigger] draw_covers(x0, y0, n, r, c) && sprite_bit(
            sprite_row(mem, i, r - y0),
            c - x0,
        )
}

/// XOR-drawing the same sprite twice at the same anchor restores every
/// pixel: the second draw clears exactly what the first set.
pub proof fn lemma_draw_involution(
    fb: Seq<Seq<bool>>,
    mem: Seq<u8>,
    i: u16,
    x0: int,
    y0: int,
    n: int,
)
    requires
        fb.len() == 32,
        forall|r: int| 0 <= r < 32 ==> (#[trigger] fb[r]).len() == 64,
    ensures
        drawn_fb(drawn_fb(fb, mem, i, x0, y0, n), mem, i, x0, y0, n) == fb,
{
    assert(drawn_fb(drawn_fb(fb, mem, i, x0, y0, n), mem, i, x0, y0, n) =~~= fb);
}

/// On a clear framebuffer the first draw never collides, and drawing the
/// same sprite again collides exactly when the sprite lights any pixel:
/// VF is 0 after the first draw and 1 after the second whenever the sprite
/// is visible at all.
pub proof fn lemma_draw_twice_collides(
    fb: Seq<Seq<bool>>,
    mem: Seq<u8>,
    i: u16,
    x0: int,
    y0: int,
    n: int,
)
    requires
        fb.len() == 32,
        forall|r: int| 0 <= r < 32 ==> (#[trigger] fb[r]).len() == 64,
        forall|r: int, c: int| 0 <= r < 32 && 0 <= c < 64 ==> !(#[trigger] fb[r][c]),
    ensures
        !draw_hit(fb, mem, i, x0, y0, n),
        draw_hit(drawn_fb(fb, mem, i, x0, y0, n), mem, i, x0, y0, n) <==> draw_sets_some_pixel(
            mem,
            i,
            x0,
            y0,
            n,
        ),
{
    let fb1 = drawn_fb(fb, mem, i, x0, y0, n);
    if draw_hit(fb1, mem, i, x0, y0, n) {
        let (r, c) = choose|r: int, c: int|
            0 <= r < 32 && 0 <= c < 64 && #[trigger] draw_covers(x0, y0, n, r, c) && fb1[r][c]
                && sprite_bit(sprite_row(mem, i, r - y0), c - x0);
        assert(draw_sets_some_pixel(mem, i, x0, y0, n));
    }
    if draw_sets_some_pixel(mem, i, x0, y0, n) {
        let (r, c) = choose|r: int, c: int|
            0 <= r < 32 && 0 <= c < 64 && #[trigger] draw_covers(x0, y0, n, r, c) && sprite_bit(
                sprite_row(mem, i, r - y0),
                c - x0,
            );
        assert(fb1[r][c]);
        assert(draw_hit(fb1, mem, i, x0, y0, n));
    }
}

} // verus!
