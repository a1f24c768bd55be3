//! The executable interpreter: one instruction per call, proved to follow
//! the specification functions of [`crate::semantics`] exactly.

use vstd::prelude::*;
use crate::state::Chip8;
use crate::state::MachineState;
use crate::state::HALT_PC;
use crate::state::MEM_SIZE;
use crate::state::SCREEN_CELLS;
use crate::state::filled;
use crate::semantics::alu_state;
use crate::semantics::blit_upto;
use crate::semantics::collision_upto;
use crate::semantics::draw_hit;
use crate::semantics::draw_state;
use crate::semantics::exec_effect;
use crate::semantics::instr_of;
use crate::semantics::lemma_decode_bounds;
use crate::semantics::load_regs;
use crate::semantics::load_upto;
use crate::semantics::op_adr;
use crate::semantics::op_kk;
use crate::semantics::op_n;
use crate::semantics::op_x;
use crate::semantics::op_y;
use crate::semantics::step_effect;
use crate::semantics::store_regs;
use crate::semantics::store_upto;
use crate::semantics::tick_state;
use crate::host::duration_as_nanos;
use crate::host::instant_elapsed;
use crate::host::instant_now;
use crate::host::random_byte;

verus! {

/// Nanoseconds in one 60 Hz timer interval (one sixtieth of a second,
/// rounded up).
pub const TICK_NANOS: u128 = 16666667;

/// A set sprite bit strictly before row `i`, column `q` collides exactly
/// when one does strictly before `(i, q)`'s successor in drawing order.
proof fn lemma_collision_step(pre: MachineState, x0: int, y0: int, i: int, q: int)
    requires
        0 <= i,
        0 <= q < 8,
    ensures
        collision_upto(pre, x0, y0, i, q + 1) == (collision_upto(pre, x0, y0, i, q) || draw_hit(
            pre,
            x0,
            y0,
            i,
            q,
        )),
{
    if collision_upto(pre, x0, y0, i, q + 1) {
        let (a, b) = choose|a: int, b: int|
            0 <= a && 0 <= b < 8 && (a < i || (a == i && b < q + 1)) && draw_hit(pre, x0, y0, a, b);
        if !(a == i && b == q) {
            assert(0 <= a && 0 <= b < 8 && (a < i || (a == i && b < q)) && draw_hit(
                pre,
                x0,
                y0,
                a,
                b,
            ));
        }
    }
    if collision_upto(pre, x0, y0, i, q) {
        let (a, b) = choose|a: int, b: int|
            0 <= a && 0 <= b < 8 && (a < i || (a == i && b < q)) && draw_hit(pre, x0, y0, a, b);
        assert(0 <= a && 0 <= b < 8 && (a < i || (a == i && b < q + 1)) && draw_hit(
            pre,
            x0,
            y0,
            a,
            b,
        ));
    }
    if draw_hit(pre, x0, y0, i, q) {
        assert(0 <= i && 0 <= q < 8 && (i < i || (i == i && q < q + 1)) && draw_hit(
            pre,
            x0,
            y0,
            i,
            q,
        ));
    }
}

/// Having processed a full row is the same point in drawing order as
/// standing at the start of the next row.
proof fn lemma_collision_row(pre: MachineState, x0: int, y0: int, i: int)
    requires
        0 <= i,
    ensures
        collision_upto(pre, x0, y0, i + 1, 0) == collision_upto(pre, x0, y0, i, 8),
        blit_upto(pre, x0, y0, i + 1, 0) =~= blit_upto(pre, x0, y0, i, 8),
{
    if collision_upto(pre, x0, y0, i + 1, 0) {
        let (a, b) = choose|a: int, b: int|
            0 <= a && 0 <= b < 8 && (a < i + 1 || (a == i + 1 && b < 0)) && draw_hit(
                pre,
                x0,
                y0,
                a,
                b,
            );
        assert(0 <= a && 0 <= b < 8 && (a < i || (a == i && b < 8)) && draw_hit(pre, x0, y0, a, b));
    }
    if collision_upto(pre, x0, y0, i, 8) {
        let (a, b) = choose|a: int, b: int|
            0 <= a && 0 <= b < 8 && (a < i || (a == i && b < 8)) && draw_hit(pre, x0, y0, a, b);
        assert(0 <= a && 0 <= b < 8 && (a < i + 1 || (a == i + 1 && b < 0)) && draw_hit(
            pre,
            x0,
            y0,
            a,
            b,
        ));
    }
}

/// A row whose sprite byte would sit past the top of memory is skipped:
/// drawing order moves to the next row with nothing changed.
proof fn lemma_skipped_row(pre: MachineState, x0: int, y0: int, i: int)
    requires
        0 <= i,
        pre.register_i + i >= MEM_SIZE,
    ensures
        collision_upto(pre, x0, y0, i + 1, 0) == collision_upto(pre, x0, y0, i, 0),
        blit_upto(pre, x0, y0, i + 1, 0) =~= blit_upto(pre, x0, y0, i, 0),
{
    if collision_upto(pre, x0, y0, i + 1, 0) {
        let (a, b) = choose|a: int, b: int|
            0 <= a && 0 <= b < 8 && (a < i + 1 || (a == i + 1 && b < 0)) && draw_hit(
                pre,
                x0,
                y0,
                a,
                b,
            );
        assert(a != i);
        assert(0 <= a && 0 <= b < 8 && (a < i || (a == i && b < 0)) && draw_hit(pre, x0, y0, a, b));
    }
    if collision_upto(pre, x0, y0, i, 0) {
        let (a, b) = choose|a: int, b: int|
            0 <= a && 0 <= b < 8 && (a < i || (a == i && b < 0)) && draw_hit(pre, x0, y0, a, b);
        assert(0 <= a && 0 <= b < 8 && (a < i + 1 || (a == i + 1 && b < 0)) && draw_hit(
            pre,
            x0,
            y0,
            a,
            b,
        ));
    }
}

impl Chip8 {
    /// The register-register ALU, group 8.
    fn exec_alu(&mut self, xi: usize, yi: usize, n: u16)
        requires
            old(self)@.wf(),
            xi < 16,
            yi < 16,
        ensures
            final(self)@ == alu_state(old(self)@, xi as int, yi as int, n),
    {
        let ghost pre = self@;
        let vx = self.registers[xi];
        let vy = self.registers[yi];
        match n {
            0 => {
                self.registers[xi] = vy;
            },
            1 => {
                self.registers[xi] = vx | vy;
            },
            2 => {
                self.registers[xi] = vx & vy;
            },
            3 => {
                self.registers[xi] = vx ^ vy;
            },
            4 => {
                let sum = vx as u16 + vy as u16;
                self.registers[xi] = (sum % 256) as u8;
                self.registers[0xF] = if sum > 255 { 1 } else { 0 };
            },
            5 => {
                let diff = (vx as u16 + 256 - vy as u16) % 256;
                self.registers[xi] = diff as u8;
                self.registers[0xF] = if vx >= vy { 1 } else { 0 };
            },
            6 => {
                self.registers[xi] = vy >> 1u8;
                self.registers[0xF] = vy & 1;
            },
            7 => {
                let diff = (vy as u16 + 256 - vx as u16) % 256;
                self.registers[xi] = diff as u8;
                self.registers[0xF] = if vy >= vx { 1 } else { 0 };
            },
            0xE => {
                self.registers[xi] = vy << 1u8;
                self.registers[0xF] = (vy >> 7u8) & 1;
            },
            _ => {},
        }
        proof {
            assert(self@ =~= alu_state(pre, xi as int, yi as int, n));
        }
    }

    /// The sprite draw, `Dxyn`.
    #[verifier::loop_isolation(false)]
    fn exec_draw(&mut self, xi: usize, yi: usize, n: u16)
        requires
            old(self)@.wf(),
            xi < 16,
            yi < 16,
            n < 16,
        ensures
            final(self)@ == draw_state(old(self)@, xi as int, yi as int, n),
    {
        let ghost pre = self@;
        let x0 = (self.registers[xi] % 64) as usize;
        let y0 = (self.registers[yi] % 32) as usize;
        let ghost gx = x0 as int;
        let ghost gy = y0 as int;
        let nn = n as usize;
        let mut overwrite = false;
        let mut i: usize = 0;
        while i < nn
            invariant
                i <= nn,
                self@.memory == pre.memory,
                self@.registers == pre.registers,
                self@.register_i == pre.register_i,
                self@.pc == pre.pc,
                self@.sp == pre.sp,
                self@.stack == pre.stack,
                self@.dt == pre.dt,
                self@.st == pre.st,
                self@.screen =~= blit_upto(pre, gx, gy, i as int, 0),
                overwrite == collision_upto(pre, gx, gy, i as int, 0),
            decreases nn - i,
        {
            let addr = self.register_i as usize + i;
            if addr < MEM_SIZE {
                let byte = self.memory[addr];
                let mut q: usize = 0;
                while q < 8
                    invariant
                        q <= 8,
                        addr < MEM_SIZE,
                        byte == pre.memory[addr as int],
                        self@.memory == pre.memory,
                        self@.registers == pre.registers,
                        self@.register_i == pre.register_i,
                        self@.pc == pre.pc,
                        self@.sp == pre.sp,
                        self@.stack == pre.stack,
                        self@.dt == pre.dt,
                        self@.st == pre.st,
                        self@.screen =~= blit_upto(pre, gx, gy, i as int, q as int),
                        overwrite == collision_upto(pre, gx, gy, i as int, q as int),
                    decreases 8 - q,
                {
                    let yy = y0 + i;
                    let xx = x0 + q;
                    if yy < 32 && xx < 64 {
                        let idx = yy * 64 + xx;
                        let bit = (byte >> ((7 - q) as u8)) & 1 == 1;
                        let px = self.screen[idx];
                        self.screen[idx] = px ^ bit;
                        if px && bit {
                            overwrite = true;
                        }
                        proof {
                            assert(idx as int / 64 == yy as int && idx as int % 64 == xx as int)
                                by (nonlinear_arith)
                                requires
                                    idx as int == yy as int * 64 + xx as int,
                                    0 <= xx < 64,
                                    0 <= yy,
                            ;
                            assert(bit == crate::semantics::sprite_bit(byte, q as int));
                            assert(px == pre.screen[idx as int]);
                            assert forall|j: int| 0 <= j < SCREEN_CELLS implies self@.screen[j]
                                == blit_upto(pre, gx, gy, i as int, q as int + 1)[j] by {
                                if j != idx as int {
                                    assert(j == 64 * (j / 64) + j % 64);
                                }
                            }
                            assert(self@.screen =~= blit_upto(pre, gx, gy, i as int, q as int + 1));
                            lemma_collision_step(pre, gx, gy, i as int, q as int);
                            assert(draw_hit(pre, gx, gy, i as int, q as int) == (px && bit));
                        }
                    } else {
                        proof {
                            lemma_collision_step(pre, gx, gy, i as int, q as int);
                            assert(!draw_hit(pre, gx, gy, i as int, q as int));
                            assert forall|j: int| 0 <= j < SCREEN_CELLS implies self@.screen[j]
                                == blit_upto(pre, gx, gy, i as int, q as int + 1)[j] by {
                                assert(j == 64 * (j / 64) + j % 64);
                            }
                            assert(self@.screen =~= blit_upto(pre, gx, gy, i as int, q as int + 1));
                        }
                    }
                    q = q + 1;
                }
                proof {
                    lemma_collision_row(pre, gx, gy, i as int);
                }
            } else {
                proof {
                    lemma_skipped_row(pre, gx, gy, i as int);
                }
            }
            i = i + 1;
        }
        self.registers[0xF] = if overwrite { 1 } else { 0 };
        proof {
            assert(gx == (pre.registers[xi as int] as int) % 64);
            assert(gy == (pre.registers[yi as int] as int) % 32);
            assert(self@ =~= draw_state(pre, xi as int, yi as int, n));
        }
    }

    /// The register-file store, `Fx55`.
    #[verifier::loop_isolation(false)]
    fn exec_store(&mut self, xi: usize)
        requires
            old(self)@.wf(),
            xi < 16,
        ensures
            final(self)@ == (MachineState { memory: store_regs(old(self)@, xi as int), ..old(
                self,
            )@ }),
    {
        let ghost pre = self@;
        let mut j: usize = 0;
        while j <= xi
            invariant
                j <= xi + 1,
                self@.memory =~= store_upto(pre, j as int),
                self@.registers == pre.registers,
                self@.register_i == pre.register_i,
                self@.pc == pre.pc,
                self@.sp == pre.sp,
                self@.stack == pre.stack,
                self@.screen == pre.screen,
                self@.dt == pre.dt,
                self@.st == pre.st,
            decreases xi + 1 - j,
        {
            let a = self.register_i as usize + j;
            if a < MEM_SIZE {
                let v = self.registers[j];
                self.memory[a] = v;
            }
            proof {
                assert(self@.memory =~= store_upto(pre, j as int + 1));
            }
            j = j + 1;
        }
        proof {
            assert(store_upto(pre, xi as int + 1) =~= store_regs(pre, xi as int));
            assert(self@ =~= (MachineState { memory: store_regs(pre, xi as int), ..pre }));
        }
    }

    /// The register-file load, `Fx65`.
    #[verifier::loop_isolation(false)]
    fn exec_load(&mut self, xi: usize)
        requires
            old(self)@.wf(),
            xi < 16,
        ensures
            final(self)@ == (MachineState { registers: load_regs(old(self)@, xi as int), ..old(
                self,
            )@ }),
    {
        let ghost pre = self@;
        let mut j: usize = 0;
        while j <= xi
            invariant
                j <= xi + 1,
                self@.registers =~= load_upto(pre, j as int),
                self@.memory == pre.memory,
                self@.register_i == pre.register_i,
                self@.pc == pre.pc,
                self@.sp == pre.sp,
                self@.stack == pre.stack,
                self@.screen == pre.screen,
                self@.dt == pre.dt,
                self@.st == pre.st,
            decreases xi + 1 - j,
        {
            let a = self.register_i as usize + j;
            if a < MEM_SIZE {
                let v = self.memory[a];
                self.registers[j] = v;
            }
            proof {
                assert(self@.registers =~= load_upto(pre, j as int + 1));
            }
            j = j + 1;
        }
        proof {
            assert(load_upto(pre, xi as int + 1) =~= load_regs(pre, xi as int));
            assert(self@ =~= (MachineState { registers: load_regs(pre, xi as int), ..pre }));
        }
    }

    /// Executes exactly the instruction at the program counter, with `rand`
    /// as the byte the random source produced (consumed only by `Cxkk`).
    /// Returns whether the display changed and whether the instruction took
    /// over control flow, in which case the caller skips the step tail.
    pub fn execute_instruction(&mut self, key: &mut Option<u8>, rand: u8) -> (r: (bool, bool))
        requires
            old(self)@.wf(),
            old(self)@.pc < HALT_PC,
        ensures
            final(self)@.wf(),
            ({
                let e = exec_effect(old(self)@, *old(key), rand);
                &&& final(self)@ == e.m
                &&& *final(key) == e.key
                &&& r.0 == e.changed
                &&& r.1 == e.early
            }),
            !r.1 ==> final(self)@.pc <= old(self)@.pc + 2,
    {
        let ghost pre = self@;
        let ghost key0 = *key;
        let hi = self.memory[self.pc as usize];
        let lo = self.memory[self.pc as usize + 1];
        let instruction: u16 = ((hi as u16) << 8u16) | (lo as u16);
        let kk = (instruction & 0xFF) as u8;
        let adr = instruction & 0xFFF;
        let n = instruction & 0xF;
        let xi = ((instruction & 0x0F00) >> 8u16) as usize;
        let yi = ((instruction & 0x00F0) >> 4u16) as usize;
        proof {
            lemma_decode_bounds(instruction);
            assert(instruction == instr_of(pre));
            assert(xi as int == op_x(instruction));
            assert(yi as int == op_y(instruction));
            assert(kk == op_kk(instruction));
            assert(adr == op_adr(instruction));
            assert(n == op_n(instruction));
        }
        let vx = self.registers[xi];
        let vy = self.registers[yi];
        let v0 = self.registers[0];
        let mut changed = false;
        let mut early = false;
        let group = instruction & 0xF000;
        proof {
            assert(group == 0x0000 || group == 0x1000 || group == 0x2000 || group == 0x3000
                || group == 0x4000 || group == 0x5000 || group == 0x6000 || group == 0x7000
                || group == 0x8000 || group == 0x9000 || group == 0xA000 || group == 0xB000
                || group == 0xC000 || group == 0xD000 || group == 0xE000 || group == 0xF000)
                by (bit_vector)
                requires
                    group == instruction & 0xF000,
            ;
        }
        match group {
            0x0000 => {
                if kk == 0xEE {
                    if self.sp > 0 {
                        self.pc = self.stack[self.sp as usize];
                        self.sp = self.sp - 1;
                        early = true;
                    }
                } else if kk == 0xE0 {
                    self.screen = filled(SCREEN_CELLS, false);
                    changed = true;
                }
            },
            0x1000 => {
                self.pc = adr;
                early = true;
            },
            0x2000 => {
                if self.sp < 15 {
                    let ret = self.pc + 2;
                    self.sp = self.sp + 1;
                    self.stack[self.sp as usize] = ret;
                    self.pc = adr;
                    early = true;
                }
            },
            0x3000 => {
                if vx == kk {
                    self.pc = self.pc + 2;
                }
            },
            0x4000 => {
                if vx != kk {
                    self.pc = self.pc + 2;
                }
            },
            0x5000 => {
                if vx == vy {
                    self.pc = self.pc + 2;
                }
            },
            0x6000 => {
                self.registers[xi] = kk;
            },
            0x7000 => {
                let sum = (vx as u16 + kk as u16) % 256;
                self.registers[xi] = sum as u8;
            },
            0x8000 => {
                self.exec_alu(xi, yi, n);
            },
            0x9000 => {
                if vx != vy {
                    self.pc = self.pc + 2;
                }
            },
            0xA000 => {
                self.register_i = adr;
            },
            0xB000 => {
                self.pc = adr + v0 as u16;
                early = true;
            },
            0xC000 => {
                self.registers[xi] = kk & rand;
            },
            0xD000 => {
                self.exec_draw(xi, yi, n);
                changed = true;
            },
            0xE000 => {
                if kk == 0x9E {
                    match *key {
                        Some(k) => {
                            if vx == k {
                                self.pc = self.pc + 2;
                                *key = None;
                            }
                        },
                        None => {},
                    }
                } else if kk == 0xA1 {
                    match *key {
                        Some(k) => {
                            if vx != k {
                                self.pc = self.pc + 2;
                                *key = None;
                            }
                        },
                        None => {
                            self.pc = self.pc + 2;
                        },
                    }
                }
            },
            0xF000 => {
                if kk == 0x07 {
                    self.registers[xi] = self.dt;
                } else if kk == 0x0A {
                    match *key {
                        None => {
                            early = true;
                        },
                        Some(k) => {
                            self.registers[xi] = k;
                            *key = None;
                        },
                    }
                } else if kk == 0x15 {
                    self.dt = vx;
                } else if kk == 0x18 {
                    self.st = vx;
                } else if kk == 0x1E {
                    self.register_i = ((self.register_i as u32 + vx as u32) % 0x10000) as u16;
                } else if kk == 0x29 {
                    self.register_i = 5 * vx as u16;
                } else if kk == 0x33 {
                    let a0 = self.register_i as usize;
                    if a0 < MEM_SIZE {
                        self.memory[a0] = vx / 100;
                    }
                    if a0 + 1 < MEM_SIZE {
                        self.memory[a0 + 1] = (vx % 100) / 10;
                    }
                    if a0 + 2 < MEM_SIZE {
                        self.memory[a0 + 2] = vx % 10;
                    }
                } else if kk == 0x55 {
                    self.exec_store(xi);
                } else if kk == 0x65 {
                    self.exec_load(xi);
                }
            },
            _ => {},
        }
        proof {
            let e = exec_effect(pre, key0, rand);
            assert(self@ =~= e.m);
        }
        (changed, early)
    }

    /// One 60 Hz timer tick: each timer counts down toward zero and stops
    /// there.
    pub fn tick_timers(&mut self)
        ensures
            final(self)@ == tick_state(old(self)@),
    {
        if self.st > 0 {
            self.st = self.st - 1;
        }
        if self.dt > 0 {
            self.dt = self.dt - 1;
        }
        proof {
            assert(self@ =~= tick_state(old(self)@));
        }
    }

    /// One whole step with the two outside inputs made explicit: `rand` is
    /// the byte the random source produced, `elapsed` whether a 60 Hz
    /// interval had elapsed on the wall clock. Deterministic, and the form
    /// tests drive.
    pub fn step_with(&mut self, key: &mut Option<u8>, rand: u8, elapsed: bool) -> (changed: bool)
        requires
            old(self)@.wf(),
        ensures
            final(self)@.wf(),
            ({
                let e = step_effect(old(self)@, *old(key), rand, elapsed);
                &&& final(self)@ == e.m
                &&& *final(key) == e.key
                &&& changed == e.changed
            }),
    {
        if self.pc >= HALT_PC {
            return false;
        }
        let r = self.execute_instruction(key, rand);
        if !r.1 {
            if elapsed {
                self.tick_timers();
            }
            self.pc = self.pc + 2;
        }
        proof {
            let e = step_effect(old(self)@, *old(key), rand, elapsed);
            assert(self@ =~= e.m);
        }
        r.0
    }

    /// One whole step against the real host: fetches, decodes and executes
    /// the instruction at the program counter, then — unless the instruction
    /// took over control flow — ticks the timers if a 60 Hz interval has
    /// elapsed since `time` (resetting `time`) and advances the program
    /// counter. Reports whether the visible display changed. At or past the
    /// halt boundary nothing happens at all. The random byte and the clock
    /// are outside inputs, so the contract holds for every outcome of them.
    pub fn run_instruction(&mut self, key: &mut Option<u8>, time: &mut std::time::Instant) -> (changed:
        bool)
        requires
            old(self)@.wf(),
        ensures
            final(self)@.wf(),
            old(self)@.pc >= HALT_PC ==> final(self)@ == old(self)@ && *final(key) == *old(key)
                && !changed,
            exists|rand: u8, elapsed: bool|
                {
                    let e = #[trigger] step_effect(old(self)@, *old(key), rand, elapsed);
                    &&& final(self)@ == e.m
                    &&& *final(key) == e.key
                    &&& changed == e.changed
                },
    {
        let ghost pre = self@;
        let ghost key0 = *key;
        if self.pc >= HALT_PC {
            proof {
                let e = step_effect(pre, key0, 0u8, false);
                assert(self@ == e.m && *key == e.key && false == e.changed);
            }
            return false;
        }
        let rand = random_byte();
        let r = self.execute_instruction(key, rand);
        let ghost mut elapsed_w: bool = false;
        if !r.1 {
            let d = instant_elapsed(&*time);
            let nanos = duration_as_nanos(&d);
            if nanos >= TICK_NANOS {
                self.tick_timers();
                *time = instant_now();
                proof {
                    elapsed_w = true;
                }
            }
            self.pc = self.pc + 2;
        }
        proof {
            let e = step_effect(pre, key0, rand, elapsed_w);
            assert(self@ =~= e.m);
            assert(self@ == e.m && *key == e.key && r.0 == e.changed);
        }
        r.0
    }
}

} // verus!
