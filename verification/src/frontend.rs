//! Rules of the desktop front end that do not touch a window: the keyboard
//! layout, the pixel scaling and the frame timing.
use vstd::prelude::*;
use crate::machine::{KEYS_NUMBER, SCREEN_HEIGHT, SCREEN_SIZE, SCREEN_WIDTH};

verus! {

/// Window pixels per CHIP-8 pixel, along each axis.
pub const SCALE: u32 = 15;
/// Window width in physical pixels (`SCREEN_WIDTH * SCALE`).
pub const WINDOW_WIDTH: u32 = 960;
/// Window height in physical pixels (`SCREEN_HEIGHT * SCALE`).
pub const WINDOW_HEIGHT: u32 = 480;
/// CPU cycles executed per rendered frame (~600 Hz CPU clock at 60 frames).
pub const TICKS_PER_FRAME: usize = 10;

/// The keypad button of a keyboard key, given as its SDL key code (the
/// lower-case ASCII code of the key's character). The QWERTY block
/// `1234/QWER/ASDF/ZXCV` maps onto the hex keypad `123C/456D/789E/A0BF`.
pub open spec fn button_of_key(code: i32) -> Option<usize> {
    if code == 0x31 {  // '1'
        Some(0x1usize)
    } else if code == 0x32 {  // '2'
        Some(0x2usize)
    } else if code == 0x33 {  // '3'
        Some(0x3usize)
    } else if code == 0x34 {  // '4'
        Some(0xCusize)
    } else if code == 0x71 {  // 'q'
        Some(0x4usize)
    } else if code == 0x77 {  // 'w'
        Some(0x5usize)
    } else if code == 0x65 {  // 'e'
        Some(0x6usize)
    } else if code == 0x72 {  // 'r'
        Some(0xDusize)
    } else if code == 0x61 {  // 'a'
        Some(0x7usize)
    } else if code == 0x73 {  // 's'
        Some(0x8usize)
    } else if code == 0x64 {  // 'd'
        Some(0x9usize)
    } else if code == 0x66 {  // 'f'
        Some(0xEusize)
    } else if code == 0x7A {  // 'z'
        Some(0xAusize)
    } else if code == 0x78 {  // 'x'
        Some(0x0usize)
    } else if code == 0x63 {  // 'c'
        Some(0xBusize)
    } else if code == 0x76 {  // 'v'
        Some(0xFusize)
    } else {
        None
    }
}

/// Maps an SDL key code to the hex keypad button it stands for, if any.
pub fn key_to_button(code: i32) -> (button: Option<usize>)
    ensures
        button == button_of_key(code),
        button matches Some(k) ==> k < KEYS_NUMBER,
{
    match code {
        0x31 => Some(0x1),
        0x32 => Some(0x2),
        0x33 => Some(0x3),
        0x34 => Some(0xC),
        0x71 => Some(0x4),
        0x77 => Some(0x5),
        0x65 => Some(0x6),
        0x72 => Some(0xD),
        0x61 => Some(0x7),
        0x73 => Some(0x8),
        0x64 => Some(0x9),
        0x66 => Some(0xE),
        0x7A => Some(0xA),
        0x78 => Some(0x0),
        0x63 => Some(0xB),
        0x76 => Some(0xF),
        _ => None,
    }
}

/// Window coordinates of the top-left corner of the square that shows
/// pixel `idx` of the frame buffer.
pub fn pixel_origin(idx: usize) -> (origin: (i32, i32))
    requires
        idx < SCREEN_SIZE,
    ensures
        origin.0 == (idx % SCREEN_WIDTH) * SCALE,
        origin.1 == (idx / SCREEN_WIDTH) * SCALE,
{
    let x: u32 = (idx % SCREEN_WIDTH) as u32;
    let y: u32 = (idx / SCREEN_WIDTH) as u32;
    assert(y < SCREEN_HEIGHT) by {
        vstd::arithmetic::div_mod::lemma_div_is_ordered(idx as int, (SCREEN_SIZE - 1) as int, 64);
    }
    ((x * SCALE) as i32, (y * SCALE) as i32)
}

/// Every keypad button is reached by exactly one keyboard key.
pub proof fn law_keyboard_covers_keypad(k: usize)
    requires
        k < KEYS_NUMBER,
    ensures
        exists|code: i32| button_of_key(code) == Some(k),
        forall|c1: i32, c2: i32|
            button_of_key(c1) == Some(k) && button_of_key(c2) == Some(k) ==> c1 == c2,
{
    let codes: Seq<i32> = seq![
        0x78i32, 0x31, 0x32, 0x33, 0x71, 0x77, 0x65, 0x61, 0x73, 0x64, 0x7A, 0x63, 0x34, 0x72,
        0x66, 0x76,
    ];
    assert(button_of_key(codes[k as int]) == Some(k));
}

/// The keyboard block `1234/QWER/ASDF/ZXCV` lies on the hex keypad
/// `123C/456D/789E/A0BF` key for key, row by row; no other key code maps to
/// a button.
pub proof fn law_keyboard_layout(code: i32)
    ensures
        ({
            let keyboard: Seq<i32> = seq![
                0x31i32, 0x32, 0x33, 0x34,  // 1 2 3 4
                0x71, 0x77, 0x65, 0x72,  // q w e r
                0x61, 0x73, 0x64, 0x66,  // a s d f
                0x7A, 0x78, 0x63, 0x76,  // z x c v
            ];
            let keypad: Seq<usize> = seq![
                0x1usize, 0x2, 0x3, 0xC,
                0x4, 0x5, 0x6, 0xD,
                0x7, 0x8, 0x9, 0xE,
                0xA, 0x0, 0xB, 0xF,
            ];
            &&& forall|k: int|
                0 <= k < 16 ==> button_of_key(#[trigger] keyboard[k]) == Some(keypad[k])
            &&& (forall|k: int| 0 <= k < 16 ==> #[trigger] keyboard[k] != code)
                ==> button_of_key(code) is None
        }),
{
    let keyboard: Seq<i32> = seq![
        0x31i32, 0x32, 0x33, 0x34, 0x71, 0x77, 0x65, 0x72, 0x61, 0x73, 0x64, 0x66, 0x7A, 0x78,
        0x63, 0x76,
    ];
    assert(keyboard[0] == 0x31 && keyboard[1] == 0x32 && keyboard[2] == 0x33 && keyboard[3]
        == 0x34 && keyboard[4] == 0x71 && keyboard[5] == 0x77 && keyboard[6] == 0x65
        && keyboard[7] == 0x72 && keyboard[8] == 0x61 && keyboard[9] == 0x73 && keyboard[10]
        == 0x64 && keyboard[11] == 0x66 && keyboard[12] == 0x7A && keyboard[13] == 0x78
        && keyboard[14] == 0x63 && keyboard[15] == 0x76);
}

} // verus!
