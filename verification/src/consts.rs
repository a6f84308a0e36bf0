//! Fixed parameters of the machine: memory layout, screen geometry and the
//! built-in hexadecimal font.

use vstd::prelude::*;

verus! {

/// Number of addressable bytes of memory.
pub const TOTAL_RAM_SIZE: usize = 4096;

/// Address at which program images are loaded and execution starts.
pub const INITIAL_PC: u16 = 0x200;

/// Number of pixel columns.
pub const SCREEN_WIDTH: u8 = 64;

/// Number of pixel rows.
pub const SCREEN_HEIGHT: u8 = 32;

/// Number of general-purpose registers.
pub const REGISTER_COUNT: usize = 16;

/// Index of the flag register `VF`.
pub const FLAG_REGISTER: usize = 15;

/// Address of the first byte of the font table.
pub const FONT_BASE: u16 = 0x50;

/// Number of bytes in one font glyph.
pub const GLYPH_SIZE: u16 = 5;

/// Number of bytes in the whole font table.
pub const FONT_SIZE: usize = 80;

/// Number of instructions executed per second.
pub const TARGET_IPS: u32 = 700;

/// Number of frames, and timer updates, per second.
pub const TARGET_FPS: u32 = 60;

/// Number of instructions executed between two timer updates.
pub const INSTRUCTIONS_PER_FRAME: u32 = TARGET_IPS / TARGET_FPS;

/// The glyphs for the hexadecimal digits `0` to `F`, five rows each, most
/// significant bit leftmost.
pub const FONT_DATA: [u8; 80] = [
    0xF0, 0x90, 0x90, 0x90, 0xF0,
    0x20, 0x60, 0x20, 0x20, 0x70,
    0xF0, 0x10, 0xF0, 0x80, 0xF0,
    0xF0, 0x10, 0xF0, 0x10, 0xF0,
    0x90, 0x90, 0xF0, 0x10, 0x10,
    0xF0, 0x80, 0xF0, 0x10, 0xF0,
    0xF0, 0x80, 0xF0, 0x90, 0xF0,
    0xF0, 0x10, 0x20, 0x40, 0x40,
    0xF0, 0x90, 0xF0, 0x90, 0xF0,
    0xF0, 0x90, 0xF0, 0x10, 0xF0,
    0xF0, 0x90, 0xF0, 0x90, 0x90,
    0xE0, 0x90, 0xE0, 0x90, 0xE0,
    0xF0, 0x80, 0x80, 0x80, 0xF0,
    0xE0, 0x90, 0x90, 0x90, 0xE0,
    0xF0, 0x80, 0xF0, 0x80, 0xF0,
    0xF0, 0x80, 0xF0, 0x80, 0x80,
];

} // verus!
