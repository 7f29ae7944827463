//! Properties that relate the interpreter's operations, proved over the model.

use crate::keypad::{lowest_pressed, KEY_COUNT};
use crate::machine::{
    add16, loaded, spec_step, spec_timer, spec_update, valid, MachineState, FLAG, MEMORY_SIZE,
    PROGRAM_START, REGISTER_COUNT, TICK,
};
use crate::screen::{
    blank, draw, draw_row, draw_rows, pixel_index, sprite_bit, SCREEN_HEIGHT, SCREEN_PIXELS,
    SCREEN_WIDTH,
};
use vstd::arithmetic::div_mod::{
    lemma_div_is_ordered, lemma_hoist_over_denominator, lemma_mod_equivalence, lemma_small_mod,
};
use vstd::prelude::*;

verus! {

/// After any ROM is loaded, the program counter is at `PROGRAM_START`, the
/// timer is zero, the stack is empty, every register is zero, and the screen
/// is blank and marked dirty.
pub proof fn lemma_load_resets(rom: Seq<u8>)
    ensures
        loaded(rom).pc == PROGRAM_START,
        loaded(rom).delay == 0,
        loaded(rom).stack.len() == 0,
        loaded(rom).v.len() == REGISTER_COUNT,
        forall|r: int| 0 <= r < REGISTER_COUNT ==> loaded(rom).v[r] == 0,
        loaded(rom).screen == blank(),
        forall|k: int| 0 <= k < SCREEN_PIXELS ==> !loaded(rom).screen[k],
        loaded(rom).dirty,
        !loaded(rom).halted,
{
}

/// The instruction at `s.pc` is `hi lo`.
pub open spec fn at_pc(s: MachineState, hi: u8, lo: u8) -> bool {
    &&& s.pc + 1 < MEMORY_SIZE
    &&& s.memory[s.pc as int] == hi
    &&& s.memory[s.pc + 1] == lo
}

/// `8xy4` adds with `VF` set to the carry, `8xy5` subtracts `Vy` from `Vx`
/// and `8xy7` subtracts `Vx` from `Vy`, each with `VF` set to 1 when no
/// borrow occurs; the difference wraps modulo 256.
pub proof fn lemma_carry_and_borrow(s: MachineState, x: int, y: int, rnd: u8)
    requires
        valid(s),
        0 <= x < FLAG,
        0 <= y < REGISTER_COUNT,
    ensures
        at_pc(s, (0x80 + x) as u8, (y * 16 + 4) as u8) ==> {
            let (r, t) = spec_step(s, rnd);
            &&& r is Ok
            &&& t.v[x] == (s.v[x] + s.v[y]) % 256
            &&& t.v[FLAG as int] == (if s.v[x] + s.v[y] > 255 { 1u8 } else { 0u8 })
            &&& t.pc == add16(s.pc, 2)
        },
        at_pc(s, (0x80 + x) as u8, (y * 16 + 5) as u8) ==> {
            let (r, t) = spec_step(s, rnd);
            &&& r is Ok
            &&& t.v[x] == (s.v[x] - s.v[y] + 256) % 256
            &&& t.v[FLAG as int] == (if s.v[x] >= s.v[y] { 1u8 } else { 0u8 })
            &&& t.pc == add16(s.pc, 2)
        },
        at_pc(s, (0x80 + x) as u8, (y * 16 + 7) as u8) ==> {
            let (r, t) = spec_step(s, rnd);
            &&& r is Ok
            &&& t.v[x] == (s.v[y] - s.v[x] + 256) % 256
            &&& t.v[FLAG as int] == (if s.v[y] >= s.v[x] { 1u8 } else { 0u8 })
            &&& t.pc == add16(s.pc, 2)
        },
{
}

/// `Fx0A` waits for a key: while none is held, a frame leaves the program
/// counter on the instruction and the machine otherwise as the timer left it,
/// so the next frame runs it again; once keys are held, `Vx` receives the
/// lowest-numbered one and the program counter moves on.
pub proof fn lemma_wait_for_key(s: MachineState, x: int, dt_us: u32, rnd: u8)
    requires
        valid(s),
        !s.halted,
        0 <= x < REGISTER_COUNT,
        at_pc(s, (0xF0 + x) as u8, 0x0A),
    ensures
        ({
            let (r, t) = spec_update(s, dt_us, rnd);
            &&& r is Ok
            &&& valid(t)
            &&& !t.halted
            &&& t.memory == s.memory
            &&& t.keys == s.keys
            &&& (forall|k: int| 0 <= k < KEY_COUNT ==> !s.keys[k]) ==> t.pc == s.pc && t.v == s.v
            &&& (exists|k: int| 0 <= k < KEY_COUNT && s.keys[k]) ==> {
                &&& lowest_pressed(s.keys) is Some
                &&& t.v[x] == lowest_pressed(s.keys)->Some_0
                &&& t.pc == add16(s.pc, 2)
            }
        }),
{
    let timed = spec_timer(s, dt_us);
    assert((0xF0 + x) as u8 / 16 == 0xF && (0xF0 + x) as u8 % 16 == x);
    if forall|k: int| 0 <= k < KEY_COUNT ==> !s.keys[k] {
        assert(!exists|k: int| crate::keypad::is_lowest_pressed(s.keys, k));
    }
    if exists|k: int| 0 <= k < KEY_COUNT && s.keys[k] {
        let k0 = choose|k: int| 0 <= k < KEY_COUNT && s.keys[k];
        lemma_some_lowest(s.keys, k0);
    }
}

/// Where some key is held, a lowest held key exists.
proof fn lemma_some_lowest(keys: Seq<bool>, k0: int)
    requires
        0 <= k0 < keys.len(),
        keys[k0],
    ensures
        exists|k: int| crate::keypad::is_lowest_pressed(keys, k),
    decreases k0,
{
    if exists|j: int| 0 <= j < k0 && keys[j] {
        let j = choose|j: int| 0 <= j < k0 && keys[j];
        lemma_some_lowest(keys, j);
    } else {
        assert(crate::keypad::is_lowest_pressed(keys, k0));
    }
}

/// The timer counts real time, not calls: advancing it by `dt1` and then by
/// `dt2` microseconds leaves it where one advance by `dt1 + dt2` does, as
/// long as the accumulated time stays within its 64-bit range.
pub proof fn lemma_timer_split(s: MachineState, dt1: u32, dt2: u32)
    requires
        dt1 + dt2 <= u32::MAX,
        s.timer + 60 * (dt1 + dt2) <= u64::MAX,
    ensures
        spec_timer(spec_timer(s, dt1), dt2).delay == spec_timer(s, (dt1 + dt2) as u32).delay,
{
    let t = TICK as int;
    let acc1 = s.timer + 60 * dt1;
    let acc = s.timer + 60 * (dt1 + dt2);
    if s.delay > 0 {
        let s1 = spec_timer(s, dt1);
        lemma_div_is_ordered(acc1, acc, t);
        if s1.delay > 0 {
            let k1 = acc1 / t;
            lemma_hoist_over_denominator(s1.timer + 60 * dt2, k1, t as nat);
            assert(s1.timer + 60 * dt2 + k1 * t == acc);
        }
    }
}

/// One second of time takes sixty from the timer.
pub proof fn lemma_one_second(s: MachineState)
    requires
        s.timer == 0,
        s.delay >= 60,
    ensures
        spec_timer(s, 1_000_000).delay == s.delay - 60,
        spec_timer(s, 1_000_000).timer == 0,
{
}

/// `Fx55` then `Fx65` from the same address gives back `V0..=Vx`: the store
/// writes them at `I`, and a load from there, in any state whose memory
/// agrees with the stored bytes, reads them into the registers; each moves
/// `I` on by `x + 1`.
pub proof fn lemma_store_load_round_trip(
    s: MachineState,
    u: MachineState,
    x: int,
    rnd1: u8,
    rnd2: u8,
)
    requires
        valid(s),
        valid(u),
        0 <= x < REGISTER_COUNT,
        at_pc(s, (0xF0 + x) as u8, 0x55),
        at_pc(u, (0xF0 + x) as u8, 0x65),
        s.i + x + 1 <= MEMORY_SIZE,
        u.i == s.i,
        forall|a: int|
            s.i <= a <= s.i + x ==> u.memory[a] == (#[trigger] spec_step(s, rnd1).1.memory[a]),
    ensures
        spec_step(s, rnd1).0 is Ok,
        spec_step(s, rnd1).1.i == add16(s.i, x + 1),
        spec_step(u, rnd2).0 is Ok,
        spec_step(u, rnd2).1.i == add16(u.i, x + 1),
        forall|r: int| 0 <= r <= x ==> #[trigger] spec_step(u, rnd2).1.v[r] == s.v[r],
{
    assert((0xF0 + x) as u8 / 16 == 0xF && (0xF0 + x) as u8 % 16 == x);
    let t = spec_step(s, rnd1).1;
    assert forall|r: int| 0 <= r <= x implies #[trigger] spec_step(u, rnd2).1.v[r] == s.v[r] by {
        assert(u.memory[u.i + r] == t.memory[s.i + r]);
    }
}

/// Pixels that the set bits among the first `i` bits of `row` land on, drawn
/// on screen row `yy` from column `x`.
spec fn row_cover(x: int, yy: int, row: u8, i: nat) -> Set<int>
    decreases i,
{
    if i == 0 {
        Set::empty()
    } else {
        let c = row_cover(x, yy, row, (i - 1) as nat);
        if sprite_bit(row, i - 1) {
            c.insert(pixel_index((x + i - 1) % SCREEN_WIDTH as int, yy % SCREEN_HEIGHT as int))
        } else {
            c
        }
    }
}

/// Pixels that the set bits of the first `j` rows of `sprite` land on.
spec fn rows_cover(x: int, y: int, sprite: Seq<u8>, j: nat) -> Set<int>
    decreases j,
{
    if j == 0 {
        Set::empty()
    } else {
        rows_cover(x, y, sprite, (j - 1) as nat).union(
            row_cover(x, y + j - 1, sprite[j - 1], 8),
        )
    }
}

proof fn lemma_mod_distinct(a: int, d1: int, d2: int, m: int)
    requires
        a >= 0,
        0 <= d1 < d2 < m,
    ensures
        (a + d1) % m != (a + d2) % m,
{
    lemma_mod_equivalence(a + d2, a + d1, m);
    lemma_small_mod((d2 - d1) as nat, m as nat);
}

/// The pixels of one sprite row lie on its screen row, at columns of the
/// bits drawn so far.
proof fn lemma_row_cover_place(x: int, yy: int, row: u8, i: nat, k: int)
    requires
        x >= 0,
        yy >= 0,
        row_cover(x, yy, row, i).contains(k),
    ensures
        0 <= k < SCREEN_PIXELS,
        k / 64 == yy % 32,
        exists|b: int| 0 <= b < i && k % 64 == #[trigger] ((x + b) % 64),
    decreases i,
{
    let c = row_cover(x, yy, row, (i - 1) as nat);
    if c.contains(k) {
        lemma_row_cover_place(x, yy, row, (i - 1) as nat, k);
        let b = choose|b: int| 0 <= b < i - 1 && k % 64 == #[trigger] ((x + b) % 64);
        assert(0 <= b < i && k % 64 == (x + b) % 64);
    } else {
        assert(k % 64 == (x + (i - 1)) % 64);
    }
}

/// The pixels of the first `j` rows lie on their screen rows.
proof fn lemma_rows_cover_place(x: int, y: int, sprite: Seq<u8>, j: nat, k: int)
    requires
        x >= 0,
        y >= 0,
        j <= sprite.len(),
        rows_cover(x, y, sprite, j).contains(k),
    ensures
        0 <= k < SCREEN_PIXELS,
        exists|jj: int| 0 <= jj < j && k / 64 == #[trigger] ((y + jj) % 32),
    decreases j,
{
    let c = rows_cover(x, y, sprite, (j - 1) as nat);
    if c.contains(k) {
        lemma_rows_cover_place(x, y, sprite, (j - 1) as nat, k);
        let jj = choose|jj: int| 0 <= jj < j - 1 && k / 64 == #[trigger] ((y + jj) % 32);
        assert(0 <= jj < j && k / 64 == (y + jj) % 32);
    } else {
        lemma_row_cover_place(x, y + j - 1, sprite[j - 1], 8, k);
        assert(k / 64 == (y + (j - 1)) % 32);
    }
}

/// Drawing a row onto pixels none of which it has touched before flips
/// exactly the pixels it covers, and reports a hit exactly when one of them
/// was lit at the start.
proof fn lemma_draw_row_flips(
    px: Seq<bool>,
    p0: Seq<bool>,
    h0: bool,
    c0: Set<int>,
    x: int,
    yy: int,
    row: u8,
    i: nat,
)
    requires
        px.len() == SCREEN_PIXELS,
        p0.len() == SCREEN_PIXELS,
        x >= 0,
        yy >= 0,
        i <= 8,
        forall|k: int| 0 <= k < SCREEN_PIXELS ==> p0[k] == (px[k] != c0.contains(k)),
        h0 == exists|k: int| c0.contains(k) && px[k],
        forall|k: int| c0.contains(k) ==> 0 <= k < SCREEN_PIXELS && k / 64 != yy % 32,
    ensures
        ({
            let (p, h) = draw_row(p0, h0, x, yy, row, i);
            let c = c0.union(row_cover(x, yy, row, i));
            &&& p.len() == SCREEN_PIXELS
            &&& forall|k: int| 0 <= k < SCREEN_PIXELS ==> p[k] == (px[k] != c.contains(k))
            &&& h == exists|k: int| c.contains(k) && px[k]
        }),
    decreases i,
{
    if i > 0 {
        lemma_draw_row_flips(px, p0, h0, c0, x, yy, row, (i - 1) as nat);
        let (p1, h1) = draw_row(p0, h0, x, yy, row, (i - 1) as nat);
        let rc1 = row_cover(x, yy, row, (i - 1) as nat);
        let c1 = c0.union(rc1);
        if sprite_bit(row, i - 1) {
            let t = pixel_index((x + i - 1) % SCREEN_WIDTH as int, yy % SCREEN_HEIGHT as int);
            assert(t / 64 == yy % 32 && t % 64 == (x + i - 1) % 64);
            if rc1.contains(t) {
                lemma_row_cover_place(x, yy, row, (i - 1) as nat, t);
                let b = choose|b: int| 0 <= b < i - 1 && t % 64 == #[trigger] ((x + b) % 64);
                lemma_mod_distinct(x, b, i - 1, 64);
            }
            assert(!c1.contains(t));
            let c = c0.union(row_cover(x, yy, row, i));
            assert(c =~= c1.insert(t));
            let (p, h) = draw_row(p0, h0, x, yy, row, i);
            assert(h == exists|k: int| c.contains(k) && px[k]) by {
                if h1 {
                    let k = choose|k: int| c1.contains(k) && px[k];
                    assert(c.contains(k) && px[k]);
                }
                if exists|k: int| c.contains(k) && px[k] {
                    let k = choose|k: int| c.contains(k) && px[k];
                    if k != t {
                        assert(c1.contains(k));
                    }
                }
            }
        } else {
            assert(c0.union(row_cover(x, yy, row, i)) =~= c1);
        }
    }
}

/// Drawing up to a screen's height of rows flips exactly the covered pixels,
/// each once, and reports a hit exactly when one of them was lit.
proof fn lemma_draw_rows_flips(px: Seq<bool>, x: int, y: int, sprite: Seq<u8>, j: nat)
    requires
        px.len() == SCREEN_PIXELS,
        x >= 0,
        y >= 0,
        j <= sprite.len(),
        j <= SCREEN_HEIGHT,
    ensures
        ({
            let (p, h) = draw_rows(px, x, y, sprite, j);
            let c = rows_cover(x, y, sprite, j);
            &&& p.len() == SCREEN_PIXELS
            &&& forall|k: int| 0 <= k < SCREEN_PIXELS ==> p[k] == (px[k] != c.contains(k))
            &&& h == exists|k: int| c.contains(k) && px[k]
        }),
    decreases j,
{
    if j > 0 {
        lemma_draw_rows_flips(px, x, y, sprite, (j - 1) as nat);
        let (p1, h1) = draw_rows(px, x, y, sprite, (j - 1) as nat);
        let c1 = rows_cover(x, y, sprite, (j - 1) as nat);
        assert forall|k: int| c1.contains(k) implies 0 <= k < SCREEN_PIXELS && k / 64 != (y + j
            - 1) % 32 by {
            lemma_rows_cover_place(x, y, sprite, (j - 1) as nat, k);
            let jj = choose|jj: int| 0 <= jj < j - 1 && k / 64 == #[trigger] ((y + jj) % 32);
            lemma_mod_distinct(y, jj, j - 1, 32);
        }
        lemma_draw_row_flips(px, p1, h1, c1, x, y + j - 1, sprite[j - 1], 8);
    }
}

/// For a sprite no taller than the screen, the collision flag of a draw is
/// set exactly when some pixel that was lit before the draw is dark after it;
/// a pixel turned on is no collision.
pub proof fn lemma_collision_iff_cleared(px: Seq<bool>, x: int, y: int, sprite: Seq<u8>)
    requires
        px.len() == SCREEN_PIXELS,
        x >= 0,
        y >= 0,
        sprite.len() <= SCREEN_HEIGHT,
    ensures
        draw(px, x, y, sprite).1 <==> exists|k: int|
            0 <= k < SCREEN_PIXELS && px[k] && !draw(px, x, y, sprite).0[k],
{
    let (p, h) = draw(px, x, y, sprite);
    lemma_draw_rows_flips(px, x, y, sprite, sprite.len());
    let c = rows_cover(x, y, sprite, sprite.len());
    if h {
        let k = choose|k: int| c.contains(k) && px[k];
        lemma_rows_cover_place(x, y, sprite, sprite.len(), k);
        assert(0 <= k < SCREEN_PIXELS && px[k] && !p[k]);
    }
    if exists|k: int| 0 <= k < SCREEN_PIXELS && px[k] && !p[k] {
        let k = choose|k: int| 0 <= k < SCREEN_PIXELS && px[k] && !p[k];
        assert(c.contains(k) && px[k]);
    }
}

/// `Dxyn` sets `VF` to 1 exactly when the draw turns some lit pixel dark, and
/// to 0 otherwise.
pub proof fn lemma_draw_flag(s: MachineState, x: int, y: int, n: int, rnd: u8)
    requires
        valid(s),
        0 <= x < REGISTER_COUNT,
        0 <= y < REGISTER_COUNT,
        0 <= n < 16,
        at_pc(s, (0xD0 + x) as u8, (y * 16 + n) as u8),
        s.i + n <= MEMORY_SIZE,
    ensures
        ({
            let (r, t) = spec_step(s, rnd);
            &&& r is Ok
            &&& t.v[FLAG as int] == 1 <==> exists|k: int|
                0 <= k < SCREEN_PIXELS && s.screen[k] && !t.screen[k]
            &&& t.v[FLAG as int] == 0 <==> !exists|k: int|
                0 <= k < SCREEN_PIXELS && s.screen[k] && !t.screen[k]
        }),
{
    assert((0xD0 + x) as u8 / 16 == 0xD && (0xD0 + x) as u8 % 16 == x);
    assert((y * 16 + n) as u8 / 16 == y && (y * 16 + n) as u8 % 16 == n);
    let sprite = s.memory.subrange(s.i as int, s.i + n);
    lemma_collision_iff_cleared(s.screen, s.v[x] as int, s.v[y] as int, sprite);
}

} // verus!
