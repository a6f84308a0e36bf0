//! A verified interpreter core for the CHIP-8 virtual machine.
//!
//! The machine has 4096 bytes of memory, sixteen 8-bit registers, a call
//! stack, two timers and a 64 by 32 monochrome display. The crate decodes its
//! instructions ([`parser`]), holds its state ([`state`], [`display`]), says
//! what every instruction and the run loop do ([`semantics`]) and executes
//! programs accordingly ([`interpreter`]). It performs no input or output:
//! the interpreter hands its caller an event after every move, and the
//! caller presents the display, sounds the tone and keeps time ([`pacing`]).

use vstd::prelude::*;

pub mod consts;
pub mod display;
pub mod interpreter;
pub mod message;
pub mod pacing;
pub mod parser;
pub mod semantics;
pub mod state;

verus! {

/// The conditions that end a run abnormally.
#[derive(Debug, Clone, Copy, PartialEq, Eq, Structural)]
pub enum Error {
    /// The fetched 16-bit value matches no instruction pattern.
    UnknownOpcode(u16),
    /// Fewer than two bytes of memory remain at the program counter.
    InsufficientData,
    /// A return was executed while the call stack was empty.
    EmptyStackReturn,
    /// A key-test instruction was executed. This core has no keypad, and
    /// both key tests always end the run with this error.
    UnsupportedInstruction,
    /// An instruction addressed memory beyond the last byte.
    AddressOutOfRange,
}

} // verus!
