//! Core of a CHIP-8 virtual machine: byte-addressable memory with a fixed
//! font table, two 8-bit countdown timers, an opcode decoder, and a CPU that
//! fetches, decodes and executes one 16-bit instruction per call.
//!
//! The windowing, audio and keyboard collaborators live outside this crate;
//! they drive the machine through `Chip8::run_cycle_once`,
//! `Chip8::update_timers` and `Chip8::update_keypad`, and poll the display
//! buffer and the sound timer.

pub mod chip8;
mod clock;
pub mod laws;
pub mod memory;
pub mod opcode;
mod rng;
pub mod state;
pub mod timer;

pub use chip8::Chip8;
pub use memory::Memory;
pub use opcode::Opcode;
pub use state::State;
pub use timer::Timer;

use vstd::prelude::*;

verus! {

/// Width of the display in cells.
pub const DISPLAY_WIDTH: usize = 64;

/// Height of the display in cells.
pub const DISPLAY_HEIGHT: usize = 32;

/// Number of addressable bytes of memory.
///
/// The canonical machine has 4096 bytes; this store is deliberately sized
/// at 4056, so the top addresses `4056..4096` of the canonical map do not
/// exist here and programs must keep their traffic below this bound.
pub const MEMORY_SIZE: usize = 4056;

/// First address of the loaded program.
pub const PROGRAM_START: usize = 0x200;

/// First address of the font table.
pub const FONT_START: usize = 0x050;

} // verus!
