//! The interpreter: fetch, decode and execute, the delay timer, ROM loading.

use crate::keypad::{Keypad, KEY_COUNT};
use crate::machine::{
    add16, exec_alu, exec_misc, exec_op, fault, image, initial, load_regs, loaded, spec_step,
    spec_timer, spec_update, store_regs, valid, Fault, MachineState, RomError, FLAG, FONT_DATA,
    FONT_LEN, GLYPH_LEN, MAX_ROM_LEN, MEMORY_SIZE, PROGRAM_START, REGISTER_COUNT, TICK,
};
use crate::screen::Screen;
use vstd::prelude::*;

verus! {

broadcast use {Screen::lemma_len, Keypad::lemma_len};

/// Relies on rand::random: a byte drawn from the thread-local generator.
/// Nothing is known of its value.
#[verifier::external_body]
fn random_byte() -> u8 {
    rand::random::<u8>()
}

/// The interpreter: memory, registers, call stack, screen, keypad and timer.
pub struct Emulator {
    halt: bool,
    pub screen: Screen,
    pub keypad: Keypad,
    pub memory: Vec<u8>,
    code_len: usize,
    pub stack: Vec<u16>,
    /// The registers `V0` to `VF`.
    pub rs: [u8; REGISTER_COUNT],
    /// The index register `I`.
    pub ri: u16,
    pub pc: u16,
    pub delay: u8,
    /// Time accumulated toward the next timer tick, in units of 1/60 µs.
    pub total_dt: u64,
}

impl View for Emulator {
    type V = MachineState;

    closed spec fn view(&self) -> MachineState {
        MachineState {
            memory: self.memory@,
            screen: self.screen@,
            dirty: self.screen.dirty(),
            keys: self.keypad@,
            stack: self.stack@,
            v: self.rs@,
            i: self.ri,
            pc: self.pc,
            delay: self.delay,
            timer: self.total_dt,
            halted: self.halt,
            code_len: self.code_len as nat,
        }
    }
}

impl Emulator {
    /// Memory spans the whole address space and the loaded program fits in it.
    pub open spec fn wf(&self) -> bool {
        valid(self@)
    }

    /// A halted machine with the font in memory and everything else zero.
    pub fn new() -> (e: Emulator)
        ensures
            e@ == initial(),
            e.wf(),
    {
        let mut memory: Vec<u8> = Vec::new();
        let mut a: usize = 0;
        while a < MEMORY_SIZE
            invariant
                a <= MEMORY_SIZE,
                memory@.len() == a,
                forall|b: int| 0 <= b < a ==> memory@[b] == image(Seq::empty())[b],
            decreases MEMORY_SIZE - a,
        {
            if a < FONT_LEN {
                memory.push(FONT_DATA[a]);
            } else {
                memory.push(0);
            }
            a += 1;
        }
        let e = Emulator {
            halt: true,
            screen: Screen::new(),
            keypad: Keypad::new(),
            memory,
            code_len: 0,
            stack: Vec::new(),
            rs: [0u8; REGISTER_COUNT],
            ri: 0,
            pc: PROGRAM_START,
            delay: 0,
            total_dt: 0,
        };
        assert(e@.memory =~= image(Seq::empty()));
        assert(e@.v =~= initial().v);
        assert(e@.stack =~= initial().stack);
        e
    }

    pub fn is_halting(&self) -> (r: bool)
        ensures
            r == self@.halted,
    {
        self.halt
    }

    /// The addresses `[start, end)` that hold the loaded program.
    pub fn get_code_range(&self) -> (r: (usize, usize))
        requires
            self.wf(),
        ensures
            r.0 == PROGRAM_START,
            r.1 == PROGRAM_START + self@.code_len,
    {
        (PROGRAM_START as usize, PROGRAM_START as usize + self.code_len)
    }

    /// The bytes of the loaded program.
    pub fn get_code(&self) -> (r: &[u8])
        requires
            self.wf(),
        ensures
            r@ == self@.memory.subrange(
                PROGRAM_START as int,
                PROGRAM_START + self@.code_len,
            ),
    {
        let start = PROGRAM_START as usize;
        &self.memory.as_slice()[start..start + self.code_len]
    }

    /// The fault that the instruction `hi lo` raises, if any.
    fn check(&self, hi: u8, lo: u8) -> (r: Option<Fault>)
        requires
            self.wf(),
        ensures
            r == fault(self@, hi, lo),
    {
        let x = (hi % 16) as usize;
        let n = (lo % 16) as usize;
        let op = hi / 16;
        let i = self.ri as usize;
        if op == 0xD && i + n > MEMORY_SIZE {
            Some(Fault::MemoryOutOfRange)
        } else if op == 0xE && (lo == 0x9E || lo == 0xA1) && self.rs[x] as usize >= KEY_COUNT {
            Some(Fault::KeyOutOfRange)
        } else if op == 0xF && lo == 0x33 && i + 3 > MEMORY_SIZE {
            Some(Fault::MemoryOutOfRange)
        } else if op == 0xF && (lo == 0x55 || lo == 0x65) && i + x + 1 > MEMORY_SIZE {
            Some(Fault::MemoryOutOfRange)
        } else {
            None
        }
    }

    /// The register instructions `8xyN`.
    fn execute_alu(&mut self, x: usize, y: usize, n: u8)
        requires
            old(self).wf(),
            x < REGISTER_COUNT,
            y < REGISTER_COUNT,
        ensures
            final(self)@ == exec_alu(old(self)@, x as int, y as int, n),
    {
        let vx = self.rs[x];
        let vy = self.rs[y];
        if n == 0 {
            self.rs[x] = vy;
        } else if n == 1 {
            self.rs[x] = vx | vy;
        } else if n == 2 {
            self.rs[x] = vx & vy;
        } else if n == 3 {
            self.rs[x] = vx ^ vy;
        } else if n == 4 {
            self.rs[FLAG] = if vx > 255 - vy { 1 } else { 0 };
            self.rs[x] = vx.wrapping_add(vy);
        } else if n == 5 {
            self.rs[FLAG] = if vx >= vy { 1 } else { 0 };
            self.rs[x] = vx.wrapping_sub(vy);
        } else if n == 6 {
            assert(vx & 1 == (if vx % 2 == 1 { 1u8 } else { 0u8 }) && vx >> 1 == vx / 2)
                by (bit_vector);
            self.rs[FLAG] = vx & 1;
            self.rs[x] = vx >> 1;
        } else if n == 7 {
            self.rs[FLAG] = if vy >= vx { 1 } else { 0 };
            self.rs[x] = vy.wrapping_sub(vx);
        } else if n == 0xE {
            assert(vx >> 7 == (if vx >= 128 { 1u8 } else { 0u8 }) && vx << 1 == ((vx * 2) % 256) as u8)
                by (bit_vector);
            self.rs[FLAG] = vx >> 7;
            self.rs[x] = vx << 1;
        }
    }
}

impl Emulator {
    /// The timer, index and memory instructions `FxNN`.
    fn execute_misc(&mut self, x: usize, lo: u8)
        requires
            old(self).wf(),
            x < REGISTER_COUNT,
            lo == 0x33 ==> old(self)@.i + 3 <= MEMORY_SIZE,
            lo == 0x55 || lo == 0x65 ==> old(self)@.i + x + 1 <= MEMORY_SIZE,
        ensures
            final(self)@ == exec_misc(old(self)@, x as int, lo),
    {
        let vx = self.rs[x];
        if lo == 0x07 {
            self.rs[x] = self.delay;
        } else if lo == 0x0A {
            match self.keypad.get_pressed_key() {
                Some(k) => {
                    self.rs[x] = k;
                },
                None => {
                    self.pc = self.pc.wrapping_sub(2);
                },
            }
        } else if lo == 0x15 {
            self.delay = vx;
        } else if lo == 0x1E {
            self.ri = self.ri.wrapping_add(vx as u16);
        } else if lo == 0x29 {
            self.ri = vx as u16 * GLYPH_LEN;
        } else if lo == 0x33 {
            let i = self.ri as usize;
            self.memory[i] = vx / 100;
            self.memory[i + 1] = (vx / 10) % 10;
            self.memory[i + 2] = vx % 10;
        } else if lo == 0x55 {
            let i = self.ri as usize;
            let ghost mem0 = self.memory@;
            let mut r: usize = 0;
            while r <= x
                invariant
                    r <= x + 1,
                    x < REGISTER_COUNT,
                    i == old(self)@.i,
                    i + x + 1 <= MEMORY_SIZE,
                    self@ == (MachineState { memory: self@.memory, ..old(self)@ }),
                    self.memory@.len() == MEMORY_SIZE,
                    forall|a: int|
                        0 <= a < MEMORY_SIZE ==> self.memory@[a] == (if i <= a < i + r {
                            self.rs@[a - i]
                        } else {
                            mem0[a]
                        }),
                decreases x + 1 - r,
            {
                self.memory[i + r] = self.rs[r];
                r += 1;
            }
            assert(self.memory@ =~= store_regs(mem0, self.rs@, i as int, x as int));
            self.ri = self.ri.wrapping_add(x as u16 + 1);
        } else if lo == 0x65 {
            let i = self.ri as usize;
            let ghost v0 = self.rs@;
            let mut r: usize = 0;
            while r <= x
                invariant
                    r <= x + 1,
                    x < REGISTER_COUNT,
                    i == old(self)@.i,
                    i + x + 1 <= MEMORY_SIZE,
                    self@ == (MachineState { v: self@.v, ..old(self)@ }),
                    self.memory@.len() == MEMORY_SIZE,
                    forall|q: int|
                        0 <= q < REGISTER_COUNT ==> self.rs@[q] == (if q < r {
                            self.memory@[i + q]
                        } else {
                            v0[q]
                        }),
                decreases x + 1 - r,
            {
                self.rs[r] = self.memory[i + r];
                r += 1;
            }
            assert(self.rs@ =~= load_regs(v0, self.memory@, i as int, x as int));
            self.ri = self.ri.wrapping_add(x as u16 + 1);
        }
    }
}

impl Emulator {
    /// Carries out the instruction `hi lo`, `pc` having moved past it.
    fn execute(&mut self, hi: u8, lo: u8, rnd: u8)
        requires
            old(self).wf(),
            fault(old(self)@, hi, lo) is None,
        ensures
            final(self)@ == exec_op(old(self)@, hi, lo, rnd),
            final(self).wf(),
    {
        let op = hi / 16;
        let x = (hi % 16) as usize;
        let y = (lo / 16) as usize;
        let n = lo % 16;
        let nnn = (hi % 16) as u16 * 256 + lo as u16;
        let vx = self.rs[x];
        let vy = self.rs[y];
        if op == 0 {
            if hi == 0 && lo == 0xE0 {
                self.screen.clear();
            } else if hi == 0 && lo == 0xEE {
                match self.stack.pop() {
                    Some(adr) => {
                        self.pc = adr;
                    },
                    None => {},
                }
            }
        } else if op == 1 {
            self.pc = nnn;
        } else if op == 2 {
            self.stack.push(self.pc);
            self.pc = nnn;
        } else if op == 3 {
            if vx == lo {
                self.pc = self.pc.wrapping_add(2);
            }
        } else if op == 4 {
            if vx != lo {
                self.pc = self.pc.wrapping_add(2);
            }
        } else if op == 5 {
            if n == 0 && vx == vy {
                self.pc = self.pc.wrapping_add(2);
            }
        } else if op == 6 {
            self.rs[x] = lo;
        } else if op == 7 {
            self.rs[x] = vx.wrapping_add(lo);
        } else {
            self.execute_high(hi, lo, rnd);
        }
    }

    /// Carries out the instruction `hi lo` whose leading nibble is 8 or more.
    fn execute_high(&mut self, hi: u8, lo: u8, rnd: u8)
        requires
            old(self).wf(),
            fault(old(self)@, hi, lo) is None,
            hi / 16 >= 8,
        ensures
            final(self)@ == exec_op(old(self)@, hi, lo, rnd),
            final(self).wf(),
    {
        let op = hi / 16;
        let x = (hi % 16) as usize;
        let y = (lo / 16) as usize;
        let n = lo % 16;
        let nnn = (hi % 16) as u16 * 256 + lo as u16;
        let vx = self.rs[x];
        let vy = self.rs[y];
        if op == 8 {
            self.execute_alu(x, y, n);
        } else if op == 9 {
            if n == 0 && vx != vy {
                self.pc = self.pc.wrapping_add(2);
            }
        } else if op == 0xA {
            self.ri = nnn;
        } else if op == 0xB {
            self.pc = nnn + self.rs[0] as u16;
        } else if op == 0xC {
            self.rs[x] = rnd & lo;
        } else if op == 0xD {
            let start = self.ri as usize;
            let end = start + n as usize;
            let sprite = &self.memory.as_slice()[start..end];
            let hit = self.screen.draw_sprite(vx as usize, vy as usize, sprite);
            self.rs[FLAG] = if hit { 1 } else { 0 };
        } else if op == 0xE {
            if lo == 0x9E {
                if self.keypad.is_pressed(vx) {
                    self.pc = self.pc.wrapping_add(2);
                }
            } else if lo == 0xA1 {
                if !self.keypad.is_pressed(vx) {
                    self.pc = self.pc.wrapping_add(2);
                }
            }
        } else {
            self.execute_misc(x, lo);
        }
    }

    /// Runs one instruction: fetches the big-endian opcode at `pc`, moves
    /// `pc` past it and carries it out, with `rnd` as the random byte that
    /// `Cxnn` masks. On a fault nothing changes.
    pub fn step(&mut self, rnd: u8) -> (r: Result<(), Fault>)
        requires
            old(self).wf(),
        ensures
            final(self).wf(),
            (r, final(self)@) == spec_step(old(self)@, rnd),
    {
        if self.pc as usize + 1 >= MEMORY_SIZE {
            return Err(Fault::FetchOutOfRange);
        }
        let hi = self.memory[self.pc as usize];
        let lo = self.memory[self.pc as usize + 1];
        match self.check(hi, lo) {
            Some(f) => {
                return Err(f);
            },
            None => {},
        }
        self.pc = self.pc.wrapping_add(2);
        self.execute(hi, lo, rnd);
        Ok(())
    }

    /// Runs one instruction, drawing the random byte for `Cxnn` from the
    /// thread-local generator.
    pub fn execute_instruction(&mut self) -> (r: Result<(), Fault>)
        requires
            old(self).wf(),
        ensures
            final(self).wf(),
            exists|rnd: u8| (r, final(self)@) == spec_step(old(self)@, rnd),
    {
        let rnd = random_byte();
        self.step(rnd)
    }
}

impl Emulator {
    /// Advances the delay timer by `dt_us` microseconds: one tick of the
    /// 60 Hz timer for each 1/60 s accumulated, however the time was split
    /// between calls, never below zero.
    pub fn update_timer(&mut self, dt_us: u32)
        requires
            old(self).wf(),
        ensures
            final(self).wf(),
            final(self)@ == spec_timer(old(self)@, dt_us),
    {
        if self.delay > 0 {
            let acc = self.total_dt.saturating_add(dt_us as u64 * 60);
            let due = acc / TICK;
            let k: u8 = if due < self.delay as u64 { due as u8 } else { self.delay };
            self.delay = self.delay - k;
            self.total_dt = acc - k as u64 * TICK;
        }
    }

    /// One frame: when a program is loaded, advances the timer by `dt_us`
    /// microseconds and runs one instruction.
    pub fn update(&mut self, dt_us: u32) -> (r: Result<(), Fault>)
        requires
            old(self).wf(),
        ensures
            final(self).wf(),
            exists|rnd: u8| (r, final(self)@) == spec_update(old(self)@, dt_us, rnd),
    {
        if self.halt {
            assert(spec_update(old(self)@, dt_us, 0) == (Ok::<(), Fault>(()), self@));
            return Ok(());
        }
        self.update_timer(dt_us);
        let ghost timed = self@;
        let r = self.execute_instruction();
        proof {
            let rnd = choose|rnd: u8| (r, self@) == spec_step(timed, rnd);
            assert((r, self@) == spec_update(old(self)@, dt_us, rnd));
        }
        r
    }

    /// Resets the machine and loads `rom` at `PROGRAM_START`, ready to run.
    /// A ROM that does not fit is refused and the machine left as it was.
    pub fn load_rom(&mut self, rom: &[u8]) -> (r: Result<(), RomError>)
        requires
            old(self).wf(),
        ensures
            final(self).wf(),
            rom@.len() <= MAX_ROM_LEN ==> r is Ok && final(self)@ == loaded(rom@),
            rom@.len() > MAX_ROM_LEN ==> r == Err::<(), RomError>(RomError::TooLarge)
                && final(self)@ == old(self)@,
    {
        if rom.len() > MAX_ROM_LEN {
            return Err(RomError::TooLarge);
        }
        let mut e = Emulator::new();
        let start = PROGRAM_START as usize;
        let mut k: usize = 0;
        while k < rom.len()
            invariant
                k <= rom@.len() <= MAX_ROM_LEN,
                start == PROGRAM_START,
                e@ == (MachineState { memory: e@.memory, ..initial() }),
                e.memory@.len() == MEMORY_SIZE,
                forall|a: int|
                    0 <= a < MEMORY_SIZE ==> e.memory@[a] == (if start <= a < start + k {
                        rom@[a - start]
                    } else {
                        image(Seq::empty())[a]
                    }),
            decreases rom@.len() - k,
        {
            e.memory[start + k] = rom[k];
            k += 1;
        }
        assert(e.memory@ =~= image(rom@));
        e.code_len = rom.len();
        e.halt = false;
        *self = e;
        Ok(())
    }
}

} // verus!
