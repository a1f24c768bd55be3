//! The machine state: the concrete [`Chip8`] type and its mathematical model
//! [`MachineState`].

use vstd::prelude::*;

verus! {

/// Size of the addressable memory image (addresses 0x000 - 0xFFE).
pub const MEM_SIZE: usize = 0xFFF;
/// Number of general-purpose registers.
pub const NUM_REGS: usize = 16;
/// Number of call-stack slots.
pub const STACK_SIZE: usize = 16;
/// Framebuffer width in pixels.
pub const SCREEN_W: usize = 64;
/// Framebuffer height in pixels.
pub const SCREEN_H: usize = 32;
/// Total framebuffer cells (64 * 32), stored row-major.
pub const SCREEN_CELLS: usize = SCREEN_W * SCREEN_H;
/// Program counter value at which execution halts: the top of memory minus
/// the two bytes a final instruction would need.
pub const HALT_PC: u16 = 0xFFE;
/// Address at which a ROM image is loaded.
pub const ROM_BASE: usize = 0x200;

/// The mathematical model of a CHIP-8 machine: every contract in this crate
/// speaks of values of this type, obtained from a [`Chip8`] through `@`.
#[verifier::ext_equal]
pub ghost struct MachineState {
    /// The 4095-byte memory image.
    pub memory: Seq<u8>,
    /// The 16-bit address register `I`.
    pub register_i: u16,
    /// The sixteen 8-bit registers `V0` ..= `VF`.
    pub registers: Seq<u8>,
    /// The program counter.
    pub pc: u16,
    /// The stack pointer; 0 means the stack is empty.
    pub sp: u8,
    /// The sixteen return-address slots.
    pub stack: Seq<u16>,
    /// The framebuffer, row-major: the pixel at column x of row y is
    /// `screen[y * 64 + x]`.
    pub screen: Seq<bool>,
    /// The delay timer.
    pub dt: u8,
    /// The sound timer.
    pub st: u8,
}

impl MachineState {
    /// Well-formedness: the four sequences have their fixed sizes.
    pub open spec fn wf(self) -> bool {
        &&& self.memory.len() == MEM_SIZE
        &&& self.registers.len() == NUM_REGS
        &&& self.stack.len() == STACK_SIZE
        &&& self.screen.len() == SCREEN_CELLS
        &&& self.sp < 16
    }
}

/// The state of a freshly constructed machine: everything zeroed, the screen
/// blank, and the program counter at the ROM load address.
pub open spec fn blank_state() -> MachineState {
    MachineState {
        memory: Seq::new(MEM_SIZE as nat, |i: int| 0u8),
        register_i: 0u16,
        registers: Seq::new(NUM_REGS as nat, |i: int| 0u8),
        pc: 0x200u16,
        sp: 0u8,
        stack: Seq::new(STACK_SIZE as nat, |i: int| 0u16),
        screen: Seq::new(SCREEN_CELLS as nat, |i: int| false),
        dt: 0u8,
        st: 0u8,
    }
}

/// A CHIP-8 machine: memory, registers, call stack, framebuffer and timers.
pub struct Chip8 {
    pub memory: Vec<u8>,
    pub register_i: u16,
    pub registers: Vec<u8>,
    pub pc: u16,
    pub sp: u8,
    pub stack: Vec<u16>,
    pub screen: Vec<bool>,
    pub dt: u8,
    pub st: u8,
}

impl View for Chip8 {
    type V = MachineState;

    open spec fn view(&self) -> MachineState {
        MachineState {
            memory: self.memory@,
            register_i: self.register_i,
            registers: self.registers@,
            pc: self.pc,
            sp: self.sp,
            stack: self.stack@,
            screen: self.screen@,
            dt: self.dt,
            st: self.st,
        }
    }
}

/// Builds a vector holding `n` copies of `x`.
pub(crate) fn filled<T: Copy>(n: usize, x: T) -> (v: Vec<T>)
    ensures
        v@ =~= Seq::new(n as nat, |i: int| x),
{
    let mut v: Vec<T> = Vec::new();
    for k in 0..n
        invariant
            v@ =~= Seq::new(k as nat, |i: int| x),
    {
        v.push(x);
        proof {
            assert(v@ =~= Seq::new((k + 1) as nat, |i: int| x));
        }
    }
    v
}

impl Default for Chip8 {
    /// A blank machine, ready for a font and a ROM to be copied in.
    fn default() -> (c: Chip8)
        ensures
            c@ == blank_state(),
    {
        let c = Chip8 {
            memory: filled(MEM_SIZE, 0u8),
            register_i: 0,
            registers: filled(NUM_REGS, 0u8),
            pc: 0x200,
            sp: 0,
            stack: filled(STACK_SIZE, 0u16),
            screen: filled(SCREEN_CELLS, false),
            dt: 0,
            st: 0,
        };
        proof {
            assert(c@ =~= blank_state());
        }
        c
    }
}

/// The built-in 80-byte glyph font: sixteen 5-byte glyphs for the hex
/// digits 0 ..= F, kept at addresses 0x000 - 0x04F.
pub open spec fn font_data() -> Seq<u8> {
    seq![
        0xF0u8, 0x90u8, 0x90u8, 0x90u8, 0xF0u8,
        0x20u8, 0x60u8, 0x20u8, 0x20u8, 0x70u8,
        0xF0u8, 0x10u8, 0xF0u8, 0x80u8, 0xF0u8,
        0xF0u8, 0x10u8, 0xF0u8, 0x10u8, 0xF0u8,
        0x90u8, 0x90u8, 0xF0u8, 0x10u8, 0x10u8,
        0xF0u8, 0x80u8, 0xF0u8, 0x10u8, 0xF0u8,
        0xF0u8, 0x80u8, 0xF0u8, 0x90u8, 0xF0u8,
        0xF0u8, 0x10u8, 0x20u8, 0x40u8, 0x40u8,
        0xF0u8, 0x90u8, 0xF0u8, 0x90u8, 0xF0u8,
        0xF0u8, 0x90u8, 0xF0u8, 0x10u8, 0xF0u8,
        0xF0u8, 0x90u8, 0xF0u8, 0x90u8, 0x90u8,
        0xE0u8, 0x90u8, 0xE0u8, 0x90u8, 0xE0u8,
        0xF0u8, 0x80u8, 0x80u8, 0x80u8, 0xF0u8,
        0xE0u8, 0x90u8, 0x90u8, 0x90u8, 0xE0u8,
        0xF0u8, 0x80u8, 0xF0u8, 0x80u8, 0xF0u8,
        0xF0u8, 0x80u8, 0xF0u8, 0x80u8, 0x80u8,
    ]
}

/// Builds the glyph font as a vector.
#[verifier::rlimit(60)]
pub(crate) fn font_bytes() -> (v: Vec<u8>)
    ensures
        v@ == font_data(),
{
    let mut v: Vec<u8> = Vec::new();
    v.push(0xF0); v.push(0x90); v.push(0x90); v.push(0x90); v.push(0xF0);
    v.push(0x20); v.push(0x60); v.push(0x20); v.push(0x20); v.push(0x70);
    v.push(0xF0); v.push(0x10); v.push(0xF0); v.push(0x80); v.push(0xF0);
    v.push(0xF0); v.push(0x10); v.push(0xF0); v.push(0x10); v.push(0xF0);
    v.push(0x90); v.push(0x90); v.push(0xF0); v.push(0x10); v.push(0x10);
    v.push(0xF0); v.push(0x80); v.push(0xF0); v.push(0x10); v.push(0xF0);
    v.push(0xF0); v.push(0x80); v.push(0xF0); v.push(0x90); v.push(0xF0);
    v.push(0xF0); v.push(0x10); v.push(0x20); v.push(0x40); v.push(0x40);
    v.push(0xF0); v.push(0x90); v.push(0xF0); v.push(0x90); v.push(0xF0);
    v.push(0xF0); v.push(0x90); v.push(0xF0); v.push(0x10); v.push(0xF0);
    v.push(0xF0); v.push(0x90); v.push(0xF0); v.push(0x90); v.push(0x90);
    v.push(0xE0); v.push(0x90); v.push(0xE0); v.push(0x90); v.push(0xE0);
    v.push(0xF0); v.push(0x80); v.push(0x80); v.push(0x80); v.push(0xF0);
    v.push(0xE0); v.push(0x90); v.push(0x90); v.push(0x90); v.push(0xE0);
    v.push(0xF0); v.push(0x80); v.push(0xF0); v.push(0x80); v.push(0xF0);
    v.push(0xF0); v.push(0x80); v.push(0xF0); v.push(0x80); v.push(0x80);
    proof {
        assert(v@ =~= font_data());
    }
    v
}

/// The memory image after loading: the glyph font in its low 80 bytes, the
/// ROM bytes from 0x200 on (truncated at the top of memory), zero elsewhere.
pub open spec fn init_memory(rom: Seq<u8>) -> Seq<u8> {
    Seq::new(
        MEM_SIZE as nat,
        |a: int|
            if a < 80 {
                font_data()[a]
            } else if 0x200 <= a && a - 0x200 < rom.len() {
                rom[a - 0x200]
            } else {
                0u8
            },
    )
}

/// A freshly loaded machine: a blank state with the loaded memory image.
pub open spec fn loaded_state(rom: Seq<u8>) -> MachineState {
    MachineState { memory: init_memory(rom), ..blank_state() }
}

impl Chip8 {
    /// A fresh machine with the built-in font at addresses 0x000 - 0x04F and
    /// the ROM bytes copied in verbatim from address 0x200 on. A ROM longer
    /// than the remaining address space is truncated at the top of memory.
    pub fn setup(rom: &Vec<u8>) -> (c: Chip8)
        ensures
            c@ == loaded_state(rom@),
            c@.wf(),
    {
        let mut c = Chip8::default();
        let font = font_bytes();
        let mut i: usize = 0;
        while i < 80
            invariant
                i <= 80,
                font@ == font_data(),
                c@ == (MachineState { memory: c@.memory, ..blank_state() }),
                c@.memory.len() == MEM_SIZE,
                forall|a: int| 0 <= a < i ==> c@.memory[a] == font_data()[a],
                forall|a: int| i <= a < MEM_SIZE ==> c@.memory[a] == 0u8,
            decreases 80 - i,
        {
            c.memory[i] = font[i];
            i = i + 1;
        }
        let limit = MEM_SIZE - ROM_BASE;
        let count = if rom.len() > limit {
            limit
        } else {
            rom.len()
        };
        let mut j: usize = 0;
        while j < count
            invariant
                j <= count,
                count <= rom@.len(),
                count <= MEM_SIZE - ROM_BASE,
                c@ == (MachineState { memory: c@.memory, ..blank_state() }),
                c@.memory.len() == MEM_SIZE,
                forall|a: int| 0 <= a < 80 ==> c@.memory[a] == font_data()[a],
                forall|a: int|
                    ROM_BASE <= a < ROM_BASE + j ==> c@.memory[a] == rom@[a - ROM_BASE],
                forall|a: int|
                    80 <= a < MEM_SIZE && !(ROM_BASE <= a < ROM_BASE + j) ==> c@.memory[a] == 0u8,
            decreases count - j,
        {
            c.memory[ROM_BASE + j] = rom[j];
            j = j + 1;
        }
        proof {
            assert forall|a: int| 0 <= a < MEM_SIZE implies c@.memory[a] == init_memory(rom@)[a] by {
                if ROM_BASE <= a && a - ROM_BASE < rom@.len() && a - ROM_BASE >= count {
                    assert(count == limit);
                }
            }
            assert(c@.memory =~= init_memory(rom@));
            assert(c@ =~= loaded_state(rom@));
        }
        c
    }
}

} // verus!
