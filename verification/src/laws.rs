//! General laws of the interpreter, each proved from the instruction
//! semantics that the executable functions are verified against.

use vstd::prelude::*;
use crate::state::MachineState;
use crate::state::HALT_PC;
use crate::state::MEM_SIZE;
use crate::semantics::exec_effect;
use crate::semantics::instr_of;
use crate::semantics::load_regs;
use crate::semantics::op_group;
use crate::semantics::op_kk;
use crate::semantics::op_n;
use crate::semantics::op_x;
use crate::semantics::op_y;
use crate::semantics::step_effect;
use crate::semantics::store_regs;
use crate::semantics::no_effect;
use crate::semantics::draw_state;
use crate::render::pixel_byte;

verus! {

/// The decode of an instruction word assembled from a group, register
/// indices and a low byte.
proof fn lemma_assembled_decode(ins: u16, g: u16, x: u16, y: u16, kk: u16)
    requires
        ins == (g | (x << 8u16) | (y << 4u16) | kk),
        g == 0x7000 || g == 0x8000,
        x < 16,
        y < 16,
        kk < 0x10,
    ensures
        op_group(ins) == g,
        op_x(ins) == x as int,
        op_y(ins) == y as int,
        op_n(ins) == kk,
        y == 0 ==> op_kk(ins) == kk as u8,
{
    assert(ins & 0xF000 == g && (ins & 0x0F00) >> 8u16 == x && (ins & 0x00F0) >> 4u16 == y && ins
        & 0xF == kk && (y == 0 ==> ins & 0xFF == kk)) by (bit_vector)
        requires
            ins == (g | (x << 8u16) | (y << 4u16) | kk),
            g == 0x7000 || g == 0x8000,
            x < 16,
            y < 16,
            kk < 0x10,
    ;
}

/// After `7xkk` with `Vx = 0xFF` and `kk = 0x02` the register holds `0x01`:
/// the add wraps, and the flag register is untouched whenever it is not
/// itself the destination.
pub proof fn lemma_add_immediate_wraps(pre: MachineState, key: Option<u8>, rand: u8, x: u16)
    requires
        pre.wf(),
        pre.pc < HALT_PC,
        x < 16,
        instr_of(pre) == (0x7000u16 | (x << 8u16) | 0x02),
        pre.registers[x as int] == 0xFF,
    ensures
        ({
            let e = exec_effect(pre, key, rand);
            &&& e.m.registers[x as int] == 0x01
            &&& x != 15 ==> e.m.registers[15] == pre.registers[15]
        }),
{
    let ins = instr_of(pre);
    assert(ins == (0x7000u16 | (x << 8u16) | (0u16 << 4u16) | 0x02u16)) by (bit_vector)
        requires
            ins == (0x7000u16 | (x << 8u16) | 0x02u16),
    ;
    lemma_assembled_decode(ins, 0x7000, x, 0, 0x02);
}

/// `8xy4` sets `VF` to 1 exactly when the unsigned sum of `Vx` and `Vy`
/// exceeds 255, and `8xy5` sets `VF` to 0 exactly when `Vx < Vy` (a
/// borrow), to 1 otherwise.
pub proof fn lemma_arith_flags(pre: MachineState, key: Option<u8>, rand: u8, x: u16, y: u16)
    requires
        pre.wf(),
        pre.pc < HALT_PC,
        x < 16,
        y < 16,
    ensures
        instr_of(pre) == (0x8000u16 | (x << 8u16) | (y << 4u16) | 0x4) ==> exec_effect(
            pre,
            key,
            rand,
        ).m.registers[15] == (if pre.registers[x as int] + pre.registers[y as int] > 255 {
            1u8
        } else {
            0u8
        }),
        instr_of(pre) == (0x8000u16 | (x << 8u16) | (y << 4u16) | 0x5) ==> exec_effect(
            pre,
            key,
            rand,
        ).m.registers[15] == (if pre.registers[x as int] < pre.registers[y as int] {
            0u8
        } else {
            1u8
        }),
{
    let ins = instr_of(pre);
    if ins == (0x8000u16 | (x << 8u16) | (y << 4u16) | 0x4) {
        lemma_assembled_decode(ins, 0x8000, x, y, 0x4);
    }
    if ins == (0x8000u16 | (x << 8u16) | (y << 4u16) | 0x5) {
        lemma_assembled_decode(ins, 0x8000, x, y, 0x5);
    }
}

/// The shifts `8xy6` and `8xyE` shift the value of `Vy` — not `Vx` — into
/// `Vx`, and `VF` receives the evicted bit: the low bit for the right
/// shift, the high bit for the left shift.
pub proof fn lemma_shift_reads_vy(pre: MachineState, key: Option<u8>, rand: u8, x: u16, y: u16)
    requires
        pre.wf(),
        pre.pc < HALT_PC,
        x < 16,
        y < 16,
    ensures
        instr_of(pre) == (0x8000u16 | (x << 8u16) | (y << 4u16) | 0x6) ==> ({
            let e = exec_effect(pre, key, rand);
            &&& e.m.registers[15] == pre.registers[y as int] & 1
            &&& x != 15 ==> e.m.registers[x as int] == pre.registers[y as int] >> 1u8
        }),
        instr_of(pre) == (0x8000u16 | (x << 8u16) | (y << 4u16) | 0xE) ==> ({
            let e = exec_effect(pre, key, rand);
            &&& e.m.registers[15] == (pre.registers[y as int] >> 7u8) & 1
            &&& x != 15 ==> e.m.registers[x as int] == pre.registers[y as int] << 1u8
        }),
{
    let ins = instr_of(pre);
    if ins == (0x8000u16 | (x << 8u16) | (y << 4u16) | 0x6) {
        lemma_assembled_decode(ins, 0x8000, x, y, 0x6);
    }
    if ins == (0x8000u16 | (x << 8u16) | (y << 4u16) | 0xE) {
        lemma_assembled_decode(ins, 0x8000, x, y, 0xE);
    }
}

/// After `00E0`, every cell of the screen is off, the display is reported
/// changed, and a render of that screen is entirely the off colour: every
/// pixel carries the off bytes.
pub proof fn lemma_clear_then_render(
    pre: MachineState,
    key: Option<u8>,
    rand: u8,
    pixels: Seq<u8>,
)
    requires
        pre.wf(),
        pre.pc < HALT_PC,
        instr_of(pre) == 0x00E0,
        pixels.len() == 8192,
        forall|k: int|
            0 <= k < 8192 ==> pixels[k] == pixel_byte(
                exec_effect(pre, key, rand).m.screen[k / 4],
                k % 4,
            ),
    ensures
        exec_effect(pre, key, rand).changed,
        forall|i: int| 0 <= i < 2048 ==> !exec_effect(pre, key, rand).m.screen[i],
        forall|k: int| 0 <= k < 8192 ==> pixels[k] == pixel_byte(false, k % 4),
{
    let ins = instr_of(pre);
    assert(ins & 0xF000 == 0 && ins & 0xFF == 0xE0) by (bit_vector)
        requires
            ins == 0x00E0,
    ;
    assert forall|k: int| 0 <= k < 8192 implies pixels[k] == pixel_byte(false, k % 4) by {
        assert(0 <= k / 4 < 2048);
    }
}

/// Round trip: `Fx55` storing `V0 ..= Vx` and then `Fx65` loading the same
/// range from the same address restores the register file exactly, whenever
/// the whole range lies inside memory.
pub proof fn lemma_store_load_round_trip(pre: MachineState, x: int)
    requires
        pre.wf(),
        0 <= x < 16,
        pre.register_i + x < MEM_SIZE,
    ensures
        load_regs(MachineState { memory: store_regs(pre, x), ..pre }, x) =~= pre.registers,
{
    let stored = MachineState { memory: store_regs(pre, x), ..pre };
    assert forall|j: int| 0 <= j < 16 implies load_regs(stored, x)[j] == pre.registers[j] by {
        if 0 <= j <= x {
            assert(stored.memory[pre.register_i + j] == pre.registers[j]);
        }
    }
}

/// Drawing the same sprite twice at the same place restores every pixel:
/// the XOR blit is its own inverse. The coordinate registers must not be
/// the flag register, which the first draw overwrites.
pub proof fn lemma_draw_twice_restores(pre: MachineState, x: int, y: int, n: u16)
    requires
        pre.wf(),
        0 <= x < 15,
        0 <= y < 15,
    ensures
        forall|i: int|
            0 <= i < 2048 ==> draw_state(draw_state(pre, x, y, n), x, y, n).screen[i]
                == pre.screen[i],
{
    let once = draw_state(pre, x, y, n);
    assert(once.registers[x] == pre.registers[x]);
    assert(once.registers[y] == pre.registers[y]);
    assert forall|i: int| 0 <= i < 2048 implies draw_state(once, x, y, n).screen[i]
        == pre.screen[i] by {
        let x0 = (pre.registers[x] as int) % 64;
        let y0 = (pre.registers[y] as int) % 32;
        let a = i / 64 - y0;
        let b = i % 64 - x0;
        if 0 <= a && 0 <= b < 8 && a < n as int && pre.register_i + a < MEM_SIZE {
            assert(once.screen[i] == (pre.screen[i] ^ crate::semantics::sprite_bit(
                pre.memory[pre.register_i + a],
                b,
            )));
        }
    }
}

/// At or past the halt boundary a step changes nothing at all and reports
/// no display change; since the state is unchanged, the same holds for
/// every further step.
pub proof fn lemma_halted_step(pre: MachineState, key: Option<u8>, rand: u8, elapsed: bool)
    requires
        pre.pc >= HALT_PC,
    ensures
        step_effect(pre, key, rand, elapsed) == no_effect(pre, key),
{
}

/// One step decrements the timers at most once, and only toward zero: with
/// no 60 Hz interval elapsed they pass through the instruction's effect
/// untouched; with one elapsed each drops by exactly one, stopping at zero;
/// and an instruction that takes over control flow skips the tick entirely.
pub proof fn lemma_timer_tick(pre: MachineState, key: Option<u8>, rand: u8)
    requires
        pre.wf(),
        pre.pc < HALT_PC,
    ensures
        ({
            let x = exec_effect(pre, key, rand);
            let e0 = step_effect(pre, key, rand, false);
            let e1 = step_effect(pre, key, rand, true);
            &&& !x.early ==> e0.m.dt == x.m.dt && e0.m.st == x.m.st
            &&& !x.early ==> e1.m.dt == (if x.m.dt > 0 {
                (x.m.dt - 1) as u8
            } else {
                0u8
            }) && e1.m.st == (if x.m.st > 0 {
                (x.m.st - 1) as u8
            } else {
                0u8
            })
            &&& x.early ==> e0.m == x.m && e1.m == x.m
        }),
{
}

} // verus!
