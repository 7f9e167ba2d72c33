use chip8_core::frontend::{
    key_to_button, pixel_origin, SCALE, TICKS_PER_FRAME, WINDOW_HEIGHT, WINDOW_WIDTH,
};
use chip8_core::{SCREEN_HEIGHT, SCREEN_WIDTH};

#[test]
fn keyboard_layout_maps_to_hex_keypad() {
    let layout = [
        ('1', 0x1), ('2', 0x2), ('3', 0x3), ('4', 0xC),
        ('q', 0x4), ('w', 0x5), ('e', 0x6), ('r', 0xD),
        ('a', 0x7), ('s', 0x8), ('d', 0x9), ('f', 0xE),
        ('z', 0xA), ('x', 0x0), ('c', 0xB), ('v', 0xF),
    ];
    for (key, button) in layout {
        assert_eq!(key_to_button(key as i32), Some(button));
    }
    assert_eq!(key_to_button('5' as i32), None);
    assert_eq!(key_to_button('Q' as i32), None);
    assert_eq!(key_to_button(27), None);
    assert_eq!(key_to_button(0), None);
}

#[test]
fn pixel_squares_are_scaled() {
    assert_eq!(pixel_origin(0), (0, 0));
    assert_eq!(pixel_origin(1), (15, 0));
    assert_eq!(pixel_origin(64), (0, 15));
    assert_eq!(pixel_origin(64 * 31 + 63), (945, 465));
}

#[test]
fn window_dimensions() {
    assert_eq!(WINDOW_WIDTH, SCREEN_WIDTH as u32 * SCALE);
    assert_eq!(WINDOW_HEIGHT, SCREEN_HEIGHT as u32 * SCALE);
    assert_eq!(TICKS_PER_FRAME, 10);
}
