//! The mathematical model of the interpreter: its state, the effect of one
//! instruction, the delay timer and ROM loading.

use crate::keypad::{lowest_pressed, released, KEY_COUNT};
use crate::screen::{blank, draw, has_ink, SCREEN_PIXELS};
use vstd::prelude::*;

verus! {

/// Size of the addressable memory in bytes.
pub const MEMORY_SIZE: usize = 65536;

/// Address at which programs are loaded and start.
pub const PROGRAM_START: u16 = 0x200;

/// Largest ROM that fits in memory above `PROGRAM_START`.
pub const MAX_ROM_LEN: usize = 65024;

/// Number of general-purpose registers.
pub const REGISTER_COUNT: usize = 16;

/// Index of the flag register `VF`.
pub const FLAG: usize = 15;

/// Bytes in one font glyph.
pub const GLYPH_LEN: u16 = 5;

/// One period of the 60 Hz delay timer, in the timer's unit of 1/60 µs.
pub const TICK: u64 = 1_000_000;

/// Bytes of the built-in font.
pub const FONT_LEN: usize = 80;

/// The built-in hexadecimal font: sixteen glyphs of five rows each.
pub const FONT_DATA: [u8; FONT_LEN] = [
    0xF0, 0x90, 0x90, 0x90, 0xF0,  // 0
    0x20, 0x60, 0x20, 0x20, 0x70,  // 1
    0xF0, 0x10, 0xF0, 0x80, 0xF0,  // 2
    0xF0, 0x10, 0xF0, 0x10, 0xF0,  // 3
    0x90, 0x90, 0xF0, 0x10, 0x10,  // 4
    0xF0, 0x80, 0xF0, 0x10, 0xF0,  // 5
    0xF0, 0x80, 0xF0, 0x90, 0xF0,  // 6
    0xF0, 0x10, 0x20, 0x40, 0x40,  // 7
    0xF0, 0x90, 0xF0, 0x90, 0xF0,  // 8
    0xF0, 0x90, 0xF0, 0x10, 0xF0,  // 9
    0xF0, 0x90, 0xF0, 0x90, 0x90,  // A
    0xE0, 0x90, 0xE0, 0x90, 0xE0,  // B
    0xF0, 0x80, 0x80, 0x80, 0xF0,  // C
    0xE0, 0x90, 0x90, 0x90, 0xE0,  // D
    0xF0, 0x80, 0xF0, 0x80, 0xF0,  // E
    0xF0, 0x80, 0xF0, 0x80, 0x80,  // F
];

/// Why an instruction could not run. The machine is left as it was.
#[derive(Clone, Copy, Debug, PartialEq, Eq, Structural)]
pub enum Fault {
    /// The program counter points at the last byte of memory, so no whole
    /// instruction can be fetched.
    FetchOutOfRange,
    /// The instruction reads or writes memory past its end.
    MemoryOutOfRange,
    /// The instruction asks about a key that the pad does not have.
    KeyOutOfRange,
}

/// Why a ROM was not loaded. The machine is left as it was.
#[derive(Clone, Copy, Debug, PartialEq, Eq, Structural)]
pub enum RomError {
    /// The ROM does not fit in memory above `PROGRAM_START`.
    TooLarge,
}

/// Everything the interpreter holds, as mathematical values.
pub struct MachineState {
    pub memory: Seq<u8>,
    pub screen: Seq<bool>,
    /// Whether a pixel was written since the consumer last sampled the screen.
    pub dirty: bool,
    pub keys: Seq<bool>,
    /// Return addresses, the most recent last.
    pub stack: Seq<u16>,
    /// The registers `V0` to `VF`.
    pub v: Seq<u8>,
    /// The index register `I`.
    pub i: u16,
    pub pc: u16,
    pub delay: u8,
    /// Time accumulated toward the next timer tick, in units of 1/60 µs.
    pub timer: u64,
    pub halted: bool,
    /// Length of the loaded program.
    pub code_len: nat,
}

/// The sizes that every reachable state has.
pub open spec fn valid(s: MachineState) -> bool {
    &&& s.memory.len() == MEMORY_SIZE
    &&& s.screen.len() == SCREEN_PIXELS
    &&& s.keys.len() == KEY_COUNT
    &&& s.v.len() == REGISTER_COUNT
    &&& PROGRAM_START + s.code_len <= MEMORY_SIZE
}

/// `a + b` on 16-bit addresses, wrapping.
pub open spec fn add16(a: u16, b: int) -> u16 {
    ((a + b) % 0x10000) as u16
}

/// Memory holding the font at 0 and `rom` at `PROGRAM_START`, zero elsewhere.
pub open spec fn image(rom: Seq<u8>) -> Seq<u8> {
    Seq::new(
        MEMORY_SIZE as nat,
        |a: int|
            if a < FONT_LEN {
                FONT_DATA@[a]
            } else if PROGRAM_START <= a < PROGRAM_START + rom.len() {
                rom[a - PROGRAM_START]
            } else {
                0u8
            },
    )
}

/// The machine as created: font in memory, everything else zero, halted.
pub open spec fn initial() -> MachineState {
    MachineState {
        memory: image(Seq::empty()),
        screen: blank(),
        dirty: true,
        keys: released(),
        stack: Seq::empty(),
        v: Seq::new(REGISTER_COUNT as nat, |r: int| 0u8),
        i: 0,
        pc: PROGRAM_START,
        delay: 0,
        timer: 0,
        halted: true,
        code_len: 0,
    }
}

/// The machine after loading `rom`: reset, `rom` copied to `PROGRAM_START`,
/// running.
pub open spec fn loaded(rom: Seq<u8>) -> MachineState {
    MachineState { memory: image(rom), halted: false, code_len: rom.len(), ..initial() }
}

/// Register `r` set to `val`.
pub open spec fn set_v(s: MachineState, r: int, val: u8) -> MachineState {
    MachineState { v: s.v.update(r, val), ..s }
}

/// Register `VF` set to `flag`, then register `r` set to `val`.
pub open spec fn set_v_flag(s: MachineState, r: int, val: u8, flag: bool) -> MachineState {
    MachineState { v: s.v.update(FLAG as int, if flag { 1u8 } else { 0u8 }).update(r, val), ..s }
}

/// The next instruction skipped.
pub open spec fn skip(s: MachineState) -> MachineState {
    MachineState { pc: add16(s.pc, 2), ..s }
}

/// `s` with the next instruction skipped when `cond` holds.
pub open spec fn skip_if(s: MachineState, cond: bool) -> MachineState {
    if cond {
        skip(s)
    } else {
        s
    }
}

/// The fault that the instruction `hi lo` raises in `s`, if any.
pub open spec fn fault(s: MachineState, hi: u8, lo: u8) -> Option<Fault> {
    let x = (hi % 16) as int;
    let n = lo % 16;
    let op = hi / 16;
    if op == 0xD && s.i + n > MEMORY_SIZE {
        Some(Fault::MemoryOutOfRange)
    } else if op == 0xE && (lo == 0x9E || lo == 0xA1) && s.v[x] >= KEY_COUNT {
        Some(Fault::KeyOutOfRange)
    } else if op == 0xF && lo == 0x33 && s.i + 3 > MEMORY_SIZE {
        Some(Fault::MemoryOutOfRange)
    } else if op == 0xF && (lo == 0x55 || lo == 0x65) && s.i + x + 1 > MEMORY_SIZE {
        Some(Fault::MemoryOutOfRange)
    } else {
        None
    }
}

/// The register instructions `8xyN`.
pub open spec fn exec_alu(s: MachineState, x: int, y: int, n: u8) -> MachineState {
    let vx = s.v[x];
    let vy = s.v[y];
    if n == 0 {
        set_v(s, x, vy)
    } else if n == 1 {
        set_v(s, x, vx | vy)
    } else if n == 2 {
        set_v(s, x, vx & vy)
    } else if n == 3 {
        set_v(s, x, vx ^ vy)
    } else if n == 4 {
        set_v_flag(s, x, ((vx + vy) % 256) as u8, vx + vy > 255)
    } else if n == 5 {
        set_v_flag(s, x, ((vx - vy + 256) % 256) as u8, vx >= vy)
    } else if n == 6 {
        set_v_flag(s, x, vx / 2, vx % 2 == 1)
    } else if n == 7 {
        set_v_flag(s, x, ((vy - vx + 256) % 256) as u8, vy >= vx)
    } else if n == 0xE {
        set_v_flag(s, x, ((vx * 2) % 256) as u8, vx >= 128)
    } else {
        s
    }
}

/// Memory with `V0..=Vx` written from address `i` on.
pub open spec fn store_regs(mem: Seq<u8>, v: Seq<u8>, i: int, x: int) -> Seq<u8> {
    Seq::new(mem.len(), |a: int| if i <= a <= i + x { v[a - i] } else { mem[a] })
}

/// Registers with `V0..=Vx` read from memory at address `i` on.
pub open spec fn load_regs(v: Seq<u8>, mem: Seq<u8>, i: int, x: int) -> Seq<u8> {
    Seq::new(v.len(), |r: int| if r <= x { mem[i + r] } else { v[r] })
}

/// The timer, index and memory instructions `FxNN`.
pub open spec fn exec_misc(s: MachineState, x: int, lo: u8) -> MachineState {
    let vx = s.v[x];
    if lo == 0x07 {
        set_v(s, x, s.delay)
    } else if lo == 0x0A {
        match lowest_pressed(s.keys) {
            Some(k) => set_v(s, x, k),
            None => MachineState { pc: add16(s.pc, -2), ..s },
        }
    } else if lo == 0x15 {
        MachineState { delay: vx, ..s }
    } else if lo == 0x1E {
        MachineState { i: add16(s.i, vx as int), ..s }
    } else if lo == 0x29 {
        MachineState { i: (vx * GLYPH_LEN) as u16, ..s }
    } else if lo == 0x33 {
        MachineState {
            memory: s.memory.update(s.i as int, vx / 100).update(s.i + 1, (vx / 10) % 10).update(
                s.i + 2,
                vx % 10,
            ),
            ..s
        }
    } else if lo == 0x55 {
        MachineState {
            memory: store_regs(s.memory, s.v, s.i as int, x),
            i: add16(s.i, x + 1),
            ..s
        }
    } else if lo == 0x65 {
        MachineState { v: load_regs(s.v, s.memory, s.i as int, x), i: add16(s.i, x + 1), ..s }
    } else {
        s
    }
}

/// The effect of the instruction `hi lo` on `s`, whose program counter has
/// already moved past it; `rnd` is the random byte that `Cxnn` draws. The
/// instruction is assumed not to fault.
pub open spec fn exec_op(s: MachineState, hi: u8, lo: u8, rnd: u8) -> MachineState {
    let op = hi / 16;
    let x = (hi % 16) as int;
    let y = (lo / 16) as int;
    let n = lo % 16;
    let nnn = ((hi % 16) as int * 256 + lo) as u16;
    let vx = s.v[x];
    let vy = s.v[y];
    if op == 0 {
        if hi == 0 && lo == 0xE0 {
            MachineState { screen: blank(), dirty: true, ..s }
        } else if hi == 0 && lo == 0xEE && s.stack.len() > 0 {
            MachineState { pc: s.stack.last(), stack: s.stack.drop_last(), ..s }
        } else {
            s
        }
    } else if op == 1 {
        MachineState { pc: nnn, ..s }
    } else if op == 2 {
        MachineState { stack: s.stack.push(s.pc), pc: nnn, ..s }
    } else if op == 3 {
        skip_if(s, vx == lo)
    } else if op == 4 {
        skip_if(s, vx != lo)
    } else if op == 5 {
        skip_if(s, n == 0 && vx == vy)
    } else if op == 6 {
        set_v(s, x, lo)
    } else if op == 7 {
        set_v(s, x, ((vx + lo) % 256) as u8)
    } else if op == 8 {
        exec_alu(s, x, y, n)
    } else if op == 9 {
        skip_if(s, n == 0 && vx != vy)
    } else if op == 0xA {
        MachineState { i: nnn, ..s }
    } else if op == 0xB {
        MachineState { pc: (nnn + s.v[0]) as u16, ..s }
    } else if op == 0xC {
        set_v(s, x, rnd & lo)
    } else if op == 0xD {
        let (px, hit) = draw(s.screen, vx as int, vy as int, s.memory.subrange(s.i as int, s.i + n));
        MachineState {
            screen: px,
            dirty: s.dirty || has_ink(s.memory.subrange(s.i as int, s.i + n)),
            v: s.v.update(FLAG as int, if hit { 1u8 } else { 0u8 }),
            ..s
        }
    } else if op == 0xE {
        if lo == 0x9E {
            skip_if(s, s.keys[vx as int])
        } else if lo == 0xA1 {
            skip_if(s, !s.keys[vx as int])
        } else {
            s
        }
    } else {
        exec_misc(s, x, lo)
    }
}

/// One instruction: fetch the big-endian opcode at `pc`, move `pc` past it,
/// and carry it out; `rnd` is the random byte that `Cxnn` draws. On a fault
/// the machine is left as it was.
pub open spec fn spec_step(s: MachineState, rnd: u8) -> (Result<(), Fault>, MachineState) {
    if s.pc as int + 1 >= MEMORY_SIZE {
        (Err(Fault::FetchOutOfRange), s)
    } else {
        let hi = s.memory[s.pc as int];
        let lo = s.memory[s.pc + 1];
        match fault(s, hi, lo) {
            Some(f) => (Err(f), s),
            None => (Ok(()), exec_op(MachineState { pc: add16(s.pc, 2), ..s }, hi, lo, rnd)),
        }
    }
}

/// The delay timer after `dt_us` microseconds: the time is added to the
/// accumulator (saturating), and one tick is taken from it for each unit the
/// timer counts down, as many as it holds and the timer allows. Nothing
/// accumulates while the timer is zero.
pub open spec fn spec_timer(s: MachineState, dt_us: u32) -> MachineState {
    if s.delay == 0 {
        s
    } else {
        let acc = if s.timer + 60 * dt_us > u64::MAX {
            u64::MAX as int
        } else {
            s.timer + 60 * dt_us
        };
        let k = if acc / (TICK as int) < s.delay {
            acc / (TICK as int)
        } else {
            s.delay as int
        };
        MachineState { delay: (s.delay - k) as u8, timer: (acc - k * TICK) as u64, ..s }
    }
}

/// One frame: when running, advance the timer by `dt_us` and run one
/// instruction.
pub open spec fn spec_update(s: MachineState, dt_us: u32, rnd: u8) -> (
    Result<(), Fault>,
    MachineState,
) {
    if s.halted {
        (Ok(()), s)
    } else {
        spec_step(spec_timer(s, dt_us), rnd)
    }
}

} // verus!
