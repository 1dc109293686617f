//! Sizes of the machine's parts and the built-in hexadecimal font.
//!
//! Memory layout:
//!
//! ```text
//!   0x000  +------------------------------+  start of memory
//!          |  interpreter area, font data |
//!   0x200  +------------------------------+  start of user programs
//!          |  user program and data       |
//!   0xFFF  +------------------------------+  end of memory
//! ```
use vstd::prelude::*;

verus! {

/// Number of addressable bytes of memory.
pub const RAM_SIZE: usize = 4096;

/// Number of general-purpose registers.
pub const VREG_SIZE: usize = 16;

/// Number of return addresses the call stack can hold.
pub const STACK_SIZE: usize = 16;

/// Number of bytes in the font table: sixteen glyphs of five bytes each.
pub const FONTSET_SIZE: usize = 80;

/// Number of bytes in one glyph of the font table.
pub const GLYPH_SIZE: usize = 5;

/// Number of keys on the key pad.
pub const KEYBOARD_MAP_SIZE: usize = 16;

/// Width of the display in pixels.
pub const DISPLAY_WIDTH: usize = 64;

/// Height of the display in pixels.
pub const DISPLAY_HEIGHT: usize = 32;

/// Number of pixels of the display.
pub const DISPLAY_SIZE: usize = 2048;

/// First address of a loaded program.
pub const PROGRAM_START: usize = 0x200;

/// Register that doubles as the carry, borrow and collision flag.
pub const FLAG_REGISTER: usize = 0xF;

/// The glyphs for the hexadecimal digits `0` to `F`, each an 8x5 sprite.
pub const FONT_SET: [u8; 80] = [
    0xF0, 0x90, 0x90, 0x90, 0xF0, // 0
    0x20, 0x60, 0x20, 0x20, 0x70, // 1
    0xF0, 0x10, 0xF0, 0x80, 0xF0, // 2
    0xF0, 0x10, 0xF0, 0x10, 0xF0, // 3
    0x90, 0x90, 0xF0, 0x10, 0x10, // 4
    0xF0, 0x80, 0xF0, 0x10, 0xF0, // 5
    0xF0, 0x80, 0xF0, 0x90, 0xF0, // 6
    0xF0, 0x10, 0x20, 0x40, 0x40, // 7
    0xF0, 0x90, 0xF0, 0x90, 0xF0, // 8
    0xF0, 0x90, 0xF0, 0x10, 0xF0, // 9
    0xF0, 0x90, 0xF0, 0x90, 0x90, // A
    0xE0, 0x90, 0xE0, 0x90, 0xE0, // B
    0xF0, 0x80, 0x80, 0x80, 0xF0, // C
    0xE0, 0x90, 0x90, 0x90, 0xE0, // D
    0xF0, 0x80, 0xF0, 0x80, 0xF0, // E
    0xF0, 0x80, 0xF0, 0x80, 0x80, // F
];

} // verus!
