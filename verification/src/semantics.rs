//! The meaning of every instruction, as pure specification functions over
//! [`MachineState`]. The executable interpreter in [`crate::step`] is proved
//! to produce exactly these values.

use vstd::prelude::*;
use crate::state::MachineState;
use crate::state::HALT_PC;
use crate::state::MEM_SIZE;
use crate::state::NUM_REGS;
use crate::state::SCREEN_CELLS;

verus! {

/// What one instruction does, before the shared tail of a step: the machine
/// afterwards, the held key afterwards, whether the visible display changed,
/// and whether the instruction took over control flow (`early`), in which
/// case the step's timer tick and program-counter advance are skipped.
#[verifier::ext_equal]
pub ghost struct StepEffect {
    pub m: MachineState,
    pub key: Option<u8>,
    pub changed: bool,
    pub early: bool,
}

/// The 16-bit instruction word at the program counter, read big-endian.
pub open spec fn instr_of(m: MachineState) -> u16 {
    ((m.memory[m.pc as int] as u16) << 8u16) | (m.memory[m.pc as int + 1] as u16)
}

/// The low byte `kk` of an instruction word.
pub open spec fn op_kk(ins: u16) -> u8 {
    (ins & 0xFF) as u8
}

/// The low 12 bits `nnn` of an instruction word: an address.
pub open spec fn op_adr(ins: u16) -> u16 {
    ins & 0xFFF
}

/// The low nibble `n` of an instruction word.
pub open spec fn op_n(ins: u16) -> u16 {
    ins & 0xF
}

/// The third nibble: the index of the register `Vx`.
pub open spec fn op_x(ins: u16) -> int {
    ((ins & 0x0F00) >> 8u16) as int
}

/// The second nibble: the index of the register `Vy`.
pub open spec fn op_y(ins: u16) -> int {
    ((ins & 0x00F0) >> 4u16) as int
}

/// The top nibble, still in place: the 16-way dispatch group.
pub open spec fn op_group(ins: u16) -> u16 {
    ins & 0xF000
}

/// The decoded register indices and small fields all lie in range.
pub proof fn lemma_decode_bounds(ins: u16)
    ensures
        0 <= op_x(ins) < 16,
        0 <= op_y(ins) < 16,
        op_adr(ins) < 0x1000,
        op_n(ins) < 16,
{
    assert(((ins & 0x0F00) >> 8u16) < 16 && ((ins & 0x00F0) >> 4u16) < 16 && (ins & 0xFFF)
        < 0x1000 && (ins & 0xF) < 16) by (bit_vector);
}

/// An effect that leaves the machine and the key alone and falls through to
/// the step's tail: the behaviour of undefined opcodes.
pub open spec fn no_effect(pre: MachineState, key: Option<u8>) -> StepEffect {
    StepEffect { m: pre, key, changed: false, early: false }
}

/// The machine with one register replaced.
pub open spec fn with_reg(pre: MachineState, x: int, v: u8) -> MachineState {
    MachineState { registers: pre.registers.update(x, v), ..pre }
}

/// The machine with the program counter advanced two extra bytes when `skip`
/// holds: the skip-next-instruction family.
pub open spec fn skip_effect(pre: MachineState, key: Option<u8>, skip: bool) -> StepEffect {
    if skip {
        StepEffect {
            m: MachineState { pc: (pre.pc + 2) as u16, ..pre },
            key,
            changed: false,
            early: false,
        }
    } else {
        no_effect(pre, key)
    }
}

/// Group 0: `00E0` clears the screen; `00EE` pops a return address. A pop
/// with an empty stack is a silent no-op that falls through, since the
/// behaviour is otherwise unspecified; everything else in the group is a
/// no-op.
pub open spec fn sys_effect(pre: MachineState, key: Option<u8>, kk: u8) -> StepEffect {
    if kk == 0xEE {
        if pre.sp > 0 {
            StepEffect {
                m: MachineState {
                    pc: pre.stack[pre.sp as int],
                    sp: (pre.sp - 1) as u8,
                    ..pre
                },
                key,
                changed: false,
                early: true,
            }
        } else {
            no_effect(pre, key)
        }
    } else if kk == 0xE0 {
        StepEffect {
            m: MachineState { screen: Seq::new(SCREEN_CELLS as nat, |i: int| false), ..pre },
            key,
            changed: true,
            early: false,
        }
    } else {
        no_effect(pre, key)
    }
}

/// `2nnn`: push the address of the next instruction and jump. A call with a
/// full stack (15 frames in use) is a silent no-op that falls through, since
/// the behaviour is otherwise unspecified.
pub open spec fn call_effect(pre: MachineState, key: Option<u8>, adr: u16) -> StepEffect {
    if pre.sp < 15 {
        StepEffect {
            m: MachineState {
                sp: (pre.sp + 1) as u8,
                stack: pre.stack.update(pre.sp as int + 1, (pre.pc + 2) as u16),
                pc: adr,
                ..pre
            },
            key,
            changed: false,
            early: true,
        }
    } else {
        no_effect(pre, key)
    }
}

/// Group 8: the register-register ALU. All arithmetic wraps; `VF` is
/// overwritten by the carry, borrow or evicted-bit output even when it is
/// itself the destination register (the flag write happens last). The two
/// shifts read `Vy`, not `Vx`. Undefined low nibbles leave the machine alone.
pub open spec fn alu_state(pre: MachineState, x: int, y: int, n: u16) -> MachineState {
    let vx = pre.registers[x];
    let vy = pre.registers[y];
    if n == 0 {
        with_reg(pre, x, vy)
    } else if n == 1 {
        with_reg(pre, x, vx | vy)
    } else if n == 2 {
        with_reg(pre, x, vx & vy)
    } else if n == 3 {
        with_reg(pre, x, vx ^ vy)
    } else if n == 4 {
        let carry: u8 = if vx + vy > 255 { 1 } else { 0 };
        MachineState {
            registers: pre.registers.update(x, ((vx + vy) % 256) as u8).update(15, carry),
            ..pre
        }
    } else if n == 5 {
        let not_borrow: u8 = if vx >= vy { 1 } else { 0 };
        MachineState {
            registers: pre.registers.update(x, ((vx + 256 - vy) % 256) as u8).update(
                15,
                not_borrow,
            ),
            ..pre
        }
    } else if n == 6 {
        MachineState {
            registers: pre.registers.update(x, vy >> 1u8).update(15, vy & 1),
            ..pre
        }
    } else if n == 7 {
        let not_borrow: u8 = if vy >= vx { 1 } else { 0 };
        MachineState {
            registers: pre.registers.update(x, ((vy + 256 - vx) % 256) as u8).update(
                15,
                not_borrow,
            ),
            ..pre
        }
    } else if n == 0xE {
        MachineState {
            registers: pre.registers.update(x, vy << 1u8).update(15, (vy >> 7u8) & 1),
            ..pre
        }
    } else {
        pre
    }
}

/// Whether bit `b` (0 = leftmost) of a sprite row byte is set.
pub open spec fn sprite_bit(byte: u8, b: int) -> bool {
    (byte >> ((7 - b) as u8)) & 1 == 1
}

/// Whether the sprite cell at row offset `a`, column offset `b` lands on the
/// screen, has its memory row in range, and is a set bit over an on pixel:
/// a collision cell.
pub open spec fn draw_hit(pre: MachineState, x0: int, y0: int, a: int, b: int) -> bool {
    &&& y0 + a < 32
    &&& x0 + b < 64
    &&& pre.register_i + a < MEM_SIZE
    &&& pre.screen[(y0 + a) * 64 + (x0 + b)]
    &&& sprite_bit(pre.memory[pre.register_i + a], b)
}

/// Whether any collision cell lies strictly before row `i`, column `q` in
/// the drawing order (rows outermost). `collision_upto(.., n, 0)` is the
/// collision flag of a full `n`-row draw.
pub open spec fn collision_upto(pre: MachineState, x0: int, y0: int, i: int, q: int) -> bool {
    exists|a: int, b: int|
        0 <= a && 0 <= b < 8 && (a < i || (a == i && b < q)) && draw_hit(pre, x0, y0, a, b)
}

/// The framebuffer after the sprite cells strictly before row `i`, column
/// `q` have been XORed in. Cells that fall off the screen are dropped (the
/// sequence simply has no index for them); rows whose memory address is out
/// of range are skipped. `blit_upto(.., n, 0)` is a full `n`-row draw.
pub open spec fn blit_upto(pre: MachineState, x0: int, y0: int, i: int, q: int) -> Seq<bool> {
    Seq::new(
        SCREEN_CELLS as nat,
        |idx: int|
            {
                let a = idx / 64 - y0;
                let b = idx % 64 - x0;
                if 0 <= a && 0 <= b < 8 && (a < i || (a == i && b < q)) && pre.register_i + a
                    < MEM_SIZE {
                    pre.screen[idx] ^ sprite_bit(pre.memory[pre.register_i + a], b)
                } else {
                    pre.screen[idx]
                }
            },
    )
}

/// `Dxyn`: the machine after an `n`-row sprite read from memory at `I` is
/// XORed into the screen at `(Vx mod 64, Vy mod 32)`, with `VF` set to 1
/// exactly when a set sprite bit lands on an on pixel.
pub open spec fn draw_state(pre: MachineState, x: int, y: int, n: u16) -> MachineState {
    let x0 = (pre.registers[x] as int) % 64;
    let y0 = (pre.registers[y] as int) % 32;
    let hit: u8 = if collision_upto(pre, x0, y0, n as int, 0) { 1 } else { 0 };
    MachineState {
        screen: blit_upto(pre, x0, y0, n as int, 0),
        registers: pre.registers.update(15, hit),
        ..pre
    }
}

/// `Dxyn` as a step effect: the draw always marks the display changed,
/// collision or not.
pub open spec fn draw_effect(pre: MachineState, key: Option<u8>, x: int, y: int, n: u16)
    -> StepEffect {
    StepEffect { m: draw_state(pre, x, y, n), key, changed: true, early: false }
}

/// Group E: skip on the held key. `Ex9E` skips when the held key equals
/// `Vx` and consumes it; `ExA1` skips when no key is held, or when the held
/// key differs from `Vx`, consuming it in the latter case.
pub open spec fn key_effect(pre: MachineState, key: Option<u8>, kk: u8, x: int) -> StepEffect {
    let vx = pre.registers[x];
    if kk == 0x9E {
        match key {
            Some(k) => if vx == k {
                skip_effect(pre, None, true)
            } else {
                no_effect(pre, key)
            },
            None => no_effect(pre, key),
        }
    } else if kk == 0xA1 {
        match key {
            Some(k) => if vx != k {
                skip_effect(pre, None, true)
            } else {
                no_effect(pre, key)
            },
            None => skip_effect(pre, None, true),
        }
    } else {
        no_effect(pre, key)
    }
}

/// The memory image with one byte replaced, provided the address is in
/// range; a write past the top of memory is dropped.
pub open spec fn write_clamped(mem: Seq<u8>, addr: int, b: u8) -> Seq<u8> {
    if 0 <= addr < mem.len() {
        mem.update(addr, b)
    } else {
        mem
    }
}

/// `Fx33`: the three decimal digits of `Vx` written at `I`, `I+1`, `I+2`,
/// each write dropped if its address is out of range.
pub open spec fn bcd_memory(pre: MachineState, x: int) -> Seq<u8> {
    let vx = pre.registers[x];
    let i = pre.register_i as int;
    write_clamped(
        write_clamped(write_clamped(pre.memory, i, (vx / 100) as u8), i + 1, ((vx % 100) / 10) as u8),
        i + 2,
        (vx % 10) as u8,
    )
}

/// `Fx55`: the memory image after `V0 ..= Vx` are stored starting at `I`;
/// stores past the top of memory are dropped.
pub open spec fn store_regs(pre: MachineState, x: int) -> Seq<u8> {
    Seq::new(
        MEM_SIZE as nat,
        |a: int|
            if pre.register_i <= a <= pre.register_i + x {
                pre.registers[a - pre.register_i]
            } else {
                pre.memory[a]
            },
    )
}

/// The memory image after only the first `j` of the registers stored by
/// `Fx55` have been written: the intermediate picture of the store loop.
/// `store_upto(pre, x + 1)` equals `store_regs(pre, x)`.
pub open spec fn store_upto(pre: MachineState, j: int) -> Seq<u8> {
    Seq::new(
        MEM_SIZE as nat,
        |a: int|
            if pre.register_i <= a < pre.register_i + j {
                pre.registers[a - pre.register_i]
            } else {
                pre.memory[a]
            },
    )
}

/// `Fx65`: the register file after `V0 ..= Vx` are loaded from memory
/// starting at `I`; loads past the top of memory leave the register alone.
pub open spec fn load_regs(pre: MachineState, x: int) -> Seq<u8> {
    Seq::new(
        NUM_REGS as nat,
        |j: int|
            if 0 <= j <= x && pre.register_i + j < MEM_SIZE {
                pre.memory[pre.register_i + j]
            } else {
                pre.registers[j]
            },
    )
}

/// The register file after only the first `j` of the registers loaded by
/// `Fx65` have been written: the intermediate picture of the load loop.
/// `load_upto(pre, x + 1)` equals `load_regs(pre, x)`.
pub open spec fn load_upto(pre: MachineState, j: int) -> Seq<u8> {
    Seq::new(
        NUM_REGS as nat,
        |t: int|
            if 0 <= t < j && pre.register_i + t < MEM_SIZE {
                pre.memory[pre.register_i + t]
            } else {
                pre.registers[t]
            },
    )
}

/// Group F: timers, key wait, address-register arithmetic, font lookup,
/// decimal conversion, and the register-file stores and loads.
pub open spec fn misc_effect(pre: MachineState, key: Option<u8>, kk: u8, x: int) -> StepEffect {
    let vx = pre.registers[x];
    if kk == 0x07 {
        StepEffect { m: with_reg(pre, x, pre.dt), key, changed: false, early: false }
    } else if kk == 0x0A {
        match key {
            None => StepEffect { m: pre, key: None, changed: false, early: true },
            Some(k) => StepEffect { m: with_reg(pre, x, k), key: None, changed: false, early: false },
        }
    } else if kk == 0x15 {
        StepEffect { m: MachineState { dt: vx, ..pre }, key, changed: false, early: false }
    } else if kk == 0x18 {
        StepEffect { m: MachineState { st: vx, ..pre }, key, changed: false, early: false }
    } else if kk == 0x1E {
        StepEffect {
            m: MachineState {
                register_i: ((pre.register_i + vx) % 0x10000) as u16,
                ..pre
            },
            key,
            changed: false,
            early: false,
        }
    } else if kk == 0x29 {
        StepEffect {
            m: MachineState { register_i: (5 * vx) as u16, ..pre },
            key,
            changed: false,
            early: false,
        }
    } else if kk == 0x33 {
        StepEffect {
            m: MachineState { memory: bcd_memory(pre, x), ..pre },
            key,
            changed: false,
            early: false,
        }
    } else if kk == 0x55 {
        StepEffect {
            m: MachineState { memory: store_regs(pre, x), ..pre },
            key,
            changed: false,
            early: false,
        }
    } else if kk == 0x65 {
        StepEffect {
            m: MachineState { registers: load_regs(pre, x), ..pre },
            key,
            changed: false,
            early: false,
        }
    } else {
        no_effect(pre, key)
    }
}

/// The effect of the single instruction at the program counter, not yet
/// including the step's shared tail (timer tick and program-counter
/// advance). `rand` is the byte the random source produced, consumed only
/// by `Cxkk`.
pub open spec fn exec_effect(pre: MachineState, key: Option<u8>, rand: u8) -> StepEffect {
    let ins = instr_of(pre);
    let kk = op_kk(ins);
    let adr = op_adr(ins);
    let n = op_n(ins);
    let x = op_x(ins);
    let y = op_y(ins);
    let vx = pre.registers[x];
    let vy = pre.registers[y];
    if op_group(ins) == 0x0000 {
        sys_effect(pre, key, kk)
    } else if op_group(ins) == 0x1000 {
        StepEffect { m: MachineState { pc: adr, ..pre }, key, changed: false, early: true }
    } else if op_group(ins) == 0x2000 {
        call_effect(pre, key, adr)
    } else if op_group(ins) == 0x3000 {
        skip_effect(pre, key, vx == kk)
    } else if op_group(ins) == 0x4000 {
        skip_effect(pre, key, vx != kk)
    } else if op_group(ins) == 0x5000 {
        skip_effect(pre, key, vx == vy)
    } else if op_group(ins) == 0x6000 {
        StepEffect { m: with_reg(pre, x, kk), key, changed: false, early: false }
    } else if op_group(ins) == 0x7000 {
        StepEffect {
            m: with_reg(pre, x, ((vx + kk) % 256) as u8),
            key,
            changed: false,
            early: false,
        }
    } else if op_group(ins) == 0x8000 {
        StepEffect { m: alu_state(pre, x, y, n), key, changed: false, early: false }
    } else if op_group(ins) == 0x9000 {
        skip_effect(pre, key, vx != vy)
    } else if op_group(ins) == 0xA000 {
        StepEffect { m: MachineState { register_i: adr, ..pre }, key, changed: false, early: false }
    } else if op_group(ins) == 0xB000 {
        StepEffect {
            m: MachineState { pc: (adr + pre.registers[0]) as u16, ..pre },
            key,
            changed: false,
            early: true,
        }
    } else if op_group(ins) == 0xC000 {
        StepEffect { m: with_reg(pre, x, kk & rand), key, changed: false, early: false }
    } else if op_group(ins) == 0xD000 {
        draw_effect(pre, key, x, y, n)
    } else if op_group(ins) == 0xE000 {
        key_effect(pre, key, kk, x)
    } else {
        misc_effect(pre, key, kk, x)
    }
}

/// One 60 Hz timer tick: each timer counts down toward zero and stops
/// there.
pub open spec fn tick_state(m: MachineState) -> MachineState {
    MachineState {
        dt: if m.dt > 0 { (m.dt - 1) as u8 } else { 0 },
        st: if m.st > 0 { (m.st - 1) as u8 } else { 0 },
        ..m
    }
}

/// One whole step. At or past the halt boundary nothing happens at all.
/// Otherwise the instruction's effect applies; unless it took over control
/// flow, the timers then tick exactly when a 60 Hz interval had elapsed
/// (`elapsed`), and the program counter advances by two.
pub open spec fn step_effect(pre: MachineState, key: Option<u8>, rand: u8, elapsed: bool)
    -> StepEffect {
    if pre.pc >= HALT_PC {
        no_effect(pre, key)
    } else {
        let e = exec_effect(pre, key, rand);
        if e.early {
            e
        } else {
            let m1 = if elapsed { tick_state(e.m) } else { e.m };
            StepEffect {
                m: MachineState { pc: (m1.pc + 2) as u16, ..m1 },
                key: e.key,
                changed: e.changed,
                early: false,
            }
        }
    }
}

} // verus!
