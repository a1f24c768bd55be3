//! A verified CHIP-8 interpreter: a fetch-decode-execute machine over a
//! 4095-byte memory image, sixteen 8-bit registers, a 16-slot call stack,
//! a 64x32 monochrome framebuffer and two 60 Hz countdown timers.
//!
//! The machine state is modelled by [`state::MachineState`]; every opcode's
//! effect is given by the specification functions in [`semantics`], and the
//! executable interpreter in [`step`] is proved to follow them exactly.

pub mod host;
pub mod laws;
pub mod render;
pub mod semantics;
pub mod state;
pub mod step;

pub use state::Chip8;
