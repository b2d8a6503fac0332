use vstd::prelude::*;

pub mod emulator;
pub mod font;
pub mod laws;
pub mod model;

pub use emulator::Emulator;

verus! {

/// Width of the monochrome display in pixels.
pub const SCREEN_WIDTH: usize = 64;

/// Height of the monochrome display in pixels.
pub const SCREEN_HEIGHT: usize = 32;

/// Faults that loading a program or executing a step can report.
#[derive(Clone, Copy, Debug, PartialEq, Eq, Structural)]
pub enum Chip8Error {
    /// The program image does not fit in memory above the start address.
    LoadOverflow,
    /// The fetched instruction word matches no defined opcode.
    UnknownOpcode(u16),
    /// A return was executed with an empty call stack.
    StackUnderflow,
    /// A call was executed with the call stack at capacity.
    StackOverflow,
    /// A fetch or an indirect memory access fell outside memory.
    MemoryOutOfRange,
    /// A key-state test named a key outside the keypad.
    KeyOutOfRange,
}

} // verus!
