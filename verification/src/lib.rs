//! A verified interpreter core for an 8-bit virtual machine: 35 opcodes over
//! 16 one-byte registers, a 4096-byte address space, a 16-level call stack,
//! two frame timers and a 64x32 monochrome display.
//!
//! The executable machine lives in [`emu`]: [`emu::Chip8`] owns all mutable
//! state, [`emu::Chip8::cycle`] executes one instruction and
//! [`emu::Chip8::tick`] advances the timers. Its mathematical model is the
//! [`step::step`] function over [`step::MachineView`], and every operation is
//! proved to follow it exactly. [`laws`] states and proves the general
//! properties of the machine; [`rng`] holds the one outside collaborator, the
//! operating system's entropy source.

pub mod arith;
pub mod decode;
pub mod emu;
pub mod font;
pub mod laws;
pub mod rng;
pub mod step;
