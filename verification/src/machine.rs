//! Machine dimensions and the built-in font.
use vstd::prelude::*;

verus! {

/// Width of the monochrome display, in pixels.
pub const SCREEN_WIDTH: usize = 64;
/// Height of the monochrome display, in pixels.
pub const SCREEN_HEIGHT: usize = 32;
/// Number of pixels of the display.
pub const SCREEN_SIZE: usize = 2048;
/// Bytes of main memory.
pub const RAM_SIZE: usize = 4096;
/// Number of general-purpose registers V0..VF.
pub const REGISTERS_NUMBER: usize = 16;
/// Depth of the call stack.
pub const STACK_SIZE: usize = 16;
/// Number of keys of the hex keypad.
pub const KEYS_NUMBER: usize = 16;
/// Address at which programs are loaded and execution starts.
pub const START_ADDR: u16 = 0x200;
/// Bytes taken by the built-in font at the bottom of memory.
pub const FONTSET_SIZE: usize = 80;

/// The built-in hexadecimal digit sprites (0-F), five rows of 4x5 pixels each.
pub open spec fn fontset_spec() -> Seq<u8> {
    seq![
        0xF0u8, 0x90, 0x90, 0x90, 0xF0, // 0
        0x20, 0x60, 0x20, 0x20, 0x70, // 1
        0xF0, 0x10, 0xF0, 0x80, 0xF0, // 2
        0xF0, 0x10, 0xF0, 0x10, 0xF0, // 3
        0x90, 0x90, 0xF0, 0x10, 0x10, // 4
        0xF0, 0x80, 0xF0, 0x10, 0xF0, // 5
        0xF0, 0x80, 0xF0, 0x90, 0xF0, // 6
        0xF0, 0x10, 0x20, 0x40, 0x40, // 7
        0xF0, 0x90, 0xF0, 0x90, 0xF0, // 8
        0xF0, 0x90, 0xF0, 0x10, 0xF0, // 9
        0xF0, 0x90, 0xF0, 0x90, 0x90, // A
        0xE0, 0x90, 0xE0, 0x90, 0xE0, // B
        0xF0, 0x80, 0x80, 0x80, 0xF0, // C
        0xE0, 0x90, 0x90, 0x90, 0xE0, // D
        0xF0, 0x80, 0xF0, 0x80, 0xF0, // E
        0xF0, 0x80, 0xF0, 0x80, 0x80, // F
    ]
}

/// The font as a vector of bytes.
pub fn fontset() -> (font: Vec<u8>)
    ensures
        font@ == fontset_spec(),
{
    vec![
        0xF0u8, 0x90, 0x90, 0x90, 0xF0, // 0
        0x20, 0x60, 0x20, 0x20, 0x70, // 1
        0xF0, 0x10, 0xF0, 0x80, 0xF0, // 2
        0xF0, 0x10, 0xF0, 0x10, 0xF0, // 3
        0x90, 0x90, 0xF0, 0x10, 0x10, // 4
        0xF0, 0x80, 0xF0, 0x10, 0xF0, // 5
        0xF0, 0x80, 0xF0, 0x90, 0xF0, // 6
        0xF0, 0x10, 0x20, 0x40, 0x40, // 7
        0xF0, 0x90, 0xF0, 0x90, 0xF0, // 8
        0xF0, 0x90, 0xF0, 0x10, 0xF0, // 9
        0xF0, 0x90, 0xF0, 0x90, 0x90, // A
        0xE0, 0x90, 0xE0, 0x90, 0xE0, // B
        0xF0, 0x80, 0x80, 0x80, 0xF0, // C
        0xE0, 0x90, 0x90, 0x90, 0xE0, // D
        0xF0, 0x80, 0xF0, 0x80, 0xF0, // E
        0xF0, 0x80, 0xF0, 0x80, 0x80, // F
    ]
}

} // verus!
