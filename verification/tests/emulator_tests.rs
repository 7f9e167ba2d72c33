use chip8_core::Emulator;
use chip8_core::SCREEN_WIDTH;

fn program(ops: &[u16]) -> Vec<u8> {
    let mut bytes = Vec::new();
    for op in ops {
        bytes.push((op >> 8) as u8);
        bytes.push((op & 0xFF) as u8);
    }
    bytes
}

fn emulator_with(ops: &[u16]) -> Emulator {
    let mut emu = Emulator::new();
    emu.load(&program(ops));
    emu
}

fn run(emu: &mut Emulator, cycles: usize) {
    for _ in 0..cycles {
        assert!(emu.can_tick());
        emu.tick();
    }
}

fn lit(emu: &Emulator, x: usize, y: usize) -> bool {
    emu.get_display()[y * SCREEN_WIDTH + x]
}

#[test]
fn fresh_machine_state() {
    let emu = Emulator::new();
    assert_eq!(emu.pc(), 0x200);
    assert_eq!(emu.index_register(), 0);
    assert_eq!(emu.stack_depth(), 0);
    assert_eq!(emu.delay_timer(), 0);
    assert_eq!(emu.sound_timer(), 0);
    assert_eq!(emu.get_display().len(), 64 * 32);
    assert!(emu.get_display().iter().all(|p| !*p));
    for r in 0..16 {
        assert_eq!(emu.register(r), 0);
        assert!(!emu.key_pressed(r));
    }
    // font: digit 0 and digit F
    assert_eq!(
        [emu.memory(0), emu.memory(1), emu.memory(2), emu.memory(3), emu.memory(4)],
        [0xF0, 0x90, 0x90, 0x90, 0xF0]
    );
    assert_eq!(
        [emu.memory(75), emu.memory(76), emu.memory(77), emu.memory(78), emu.memory(79)],
        [0xF0, 0x80, 0xF0, 0x80, 0x80]
    );
    assert_eq!(emu.memory(80), 0);
    assert_eq!(emu.memory(0x200), 0);
}

#[test]
fn shape_is_available_and_display_has_every_pixel() {
    let emu = Emulator::new();
    emu.shape();
    assert_eq!(emu.get_display().len(), chip8_core::machine::SCREEN_SIZE);
}

#[test]
fn load_places_program_at_0x200() {
    let mut emu = Emulator::new();
    emu.load(&[0xAB, 0xCD, 0xEF]);
    assert_eq!(emu.memory(0x1FF), 0);
    assert_eq!(emu.memory(0x200), 0xAB);
    assert_eq!(emu.memory(0x201), 0xCD);
    assert_eq!(emu.memory(0x202), 0xEF);
    assert_eq!(emu.memory(0x203), 0);
    assert_eq!(emu.memory(0), 0xF0);
}

#[test]
fn load_largest_program() {
    let mut emu = Emulator::new();
    let data = vec![0x11u8; 4096 - 0x200];
    emu.load(&data);
    assert_eq!(emu.memory(4095), 0x11);
    assert_eq!(emu.memory(0x200), 0x11);
}

#[test]
fn reset_restores_fresh_state() {
    let mut emu = emulator_with(&[0x6A42, 0xA123, 0x2300, 0x00E0]);
    emu.keypress(3, true);
    run(&mut emu, 3);
    emu.reset();
    assert_eq!(emu.pc(), 0x200);
    assert_eq!(emu.register(0xA), 0);
    assert_eq!(emu.index_register(), 0);
    assert_eq!(emu.stack_depth(), 0);
    assert!(!emu.key_pressed(3));
    assert_eq!(emu.memory(0x200), 0);
    assert_eq!(emu.memory(0), 0xF0);
}

#[test]
fn nop_only_advances_pc() {
    let mut emu = emulator_with(&[0x0000]);
    run(&mut emu, 1);
    assert_eq!(emu.pc(), 0x202);
}

#[test]
fn machine_code_call_does_nothing() {
    let mut emu = emulator_with(&[0x6A42, 0x0123, 0x0FFF]);
    run(&mut emu, 3);
    assert_eq!(emu.pc(), 0x206);
    assert_eq!(emu.register(0xA), 0x42);
    assert_eq!(emu.stack_depth(), 0);
    assert_eq!(emu.index_register(), 0);
}

#[test]
fn clear_screen() {
    // draw digit 0 at (0,0) then clear
    let mut emu = emulator_with(&[0xA000, 0xD005, 0x00E0]);
    run(&mut emu, 2);
    assert!(lit(&emu, 0, 0));
    run(&mut emu, 1);
    assert!(emu.get_display().iter().all(|p| !*p));
}

#[test]
fn jump_sets_pc() {
    let mut emu = emulator_with(&[0x1ABC]);
    run(&mut emu, 1);
    assert_eq!(emu.pc(), 0xABC);
}

#[test]
fn call_and_return() {
    // 0x200: call 0x206; 0x202: LD V1, 1; 0x204: jump 0x204; 0x206: LD V0, 7; 0x208: return
    let mut emu = emulator_with(&[0x2206, 0x6101, 0x1204, 0x6007, 0x00EE]);
    run(&mut emu, 1);
    assert_eq!(emu.pc(), 0x206);
    assert_eq!(emu.stack_depth(), 1);
    run(&mut emu, 2);
    assert_eq!(emu.pc(), 0x202);
    assert_eq!(emu.stack_depth(), 0);
    assert_eq!(emu.register(0), 7);
    run(&mut emu, 1);
    assert_eq!(emu.register(1), 1);
}

#[test]
fn return_with_empty_stack_is_undefined() {
    let emu = emulator_with(&[0x00EE]);
    assert!(!emu.can_tick());
}

#[test]
fn call_with_full_stack_is_undefined() {
    // a subroutine at 0x200 that calls itself
    let mut emu = emulator_with(&[0x2200]);
    run(&mut emu, 16);
    assert_eq!(emu.stack_depth(), 16);
    assert!(!emu.can_tick());
}

#[test]
fn skip_if_equal_byte() {
    let mut emu = emulator_with(&[0x6305, 0x3305, 0x0000, 0x3306]);
    run(&mut emu, 2);
    assert_eq!(emu.pc(), 0x206);
    run(&mut emu, 1);
    assert_eq!(emu.pc(), 0x208);
}

#[test]
fn skip_if_not_equal_byte() {
    let mut emu = emulator_with(&[0x6305, 0x4306, 0x0000, 0x4305]);
    run(&mut emu, 2);
    assert_eq!(emu.pc(), 0x206);
    run(&mut emu, 1);
    assert_eq!(emu.pc(), 0x208);
}

#[test]
fn skip_if_registers_equal_and_not_equal() {
    let mut emu = emulator_with(&[0x6105, 0x6205, 0x5120, 0x0000, 0x9120, 0x6207, 0x9120]);
    run(&mut emu, 3);
    assert_eq!(emu.pc(), 0x208);
    run(&mut emu, 1);
    assert_eq!(emu.pc(), 0x20A);
    run(&mut emu, 2);
    assert_eq!(emu.pc(), 0x210);
}

#[test]
fn load_and_add_byte_wraps() {
    let mut emu = emulator_with(&[0x6AFF, 0x7A02, 0x6F09, 0x7F01]);
    run(&mut emu, 2);
    assert_eq!(emu.register(0xA), 0x01);
    run(&mut emu, 2);
    // 7XNN leaves VF alone except as its own target
    assert_eq!(emu.register(0xF), 0x0A);
}

#[test]
fn logic_ops() {
    let mut emu = emulator_with(&[0x60CC, 0x61AA, 0x8210, 0x8211, 0x6300, 0x8302, 0x6433, 0x8403]);
    run(&mut emu, 3);
    assert_eq!(emu.register(2), 0xAA);
    run(&mut emu, 1);
    assert_eq!(emu.register(2), 0xAA);
    let mut emu = emulator_with(&[0x60CC, 0x61AA, 0x8011]);
    run(&mut emu, 3);
    assert_eq!(emu.register(0), 0xEE);
    let mut emu = emulator_with(&[0x60CC, 0x61AA, 0x8012]);
    run(&mut emu, 3);
    assert_eq!(emu.register(0), 0x88);
    let mut emu = emulator_with(&[0x60CC, 0x61AA, 0x8013]);
    run(&mut emu, 3);
    assert_eq!(emu.register(0), 0x66);
}

#[test]
fn add_registers_sets_carry() {
    let mut emu = emulator_with(&[0x60FF, 0x6102, 0x8014]);
    run(&mut emu, 3);
    assert_eq!(emu.register(0), 0x01);
    assert_eq!(emu.register(0xF), 1);
    let mut emu = emulator_with(&[0x6010, 0x6120, 0x8014]);
    run(&mut emu, 3);
    assert_eq!(emu.register(0), 0x30);
    assert_eq!(emu.register(0xF), 0);
}

#[test]
fn sub_registers_sets_not_borrow() {
    let mut emu = emulator_with(&[0x6005, 0x6103, 0x8015]);
    run(&mut emu, 3);
    assert_eq!(emu.register(0), 2);
    assert_eq!(emu.register(0xF), 1);
    let mut emu = emulator_with(&[0x6003, 0x6105, 0x8015]);
    run(&mut emu, 3);
    assert_eq!(emu.register(0), 0xFE);
    assert_eq!(emu.register(0xF), 0);
    let mut emu = emulator_with(&[0x6004, 0x6104, 0x8015]);
    run(&mut emu, 3);
    assert_eq!(emu.register(0), 0);
    assert_eq!(emu.register(0xF), 1);
}

#[test]
fn sub_reversed() {
    let mut emu = emulator_with(&[0x6003, 0x6105, 0x8017]);
    run(&mut emu, 3);
    assert_eq!(emu.register(0), 2);
    assert_eq!(emu.register(0xF), 1);
    let mut emu = emulator_with(&[0x6005, 0x6103, 0x8017]);
    run(&mut emu, 3);
    assert_eq!(emu.register(0), 0xFE);
    assert_eq!(emu.register(0xF), 0);
}

#[test]
fn shifts_keep_dropped_bit() {
    let mut emu = emulator_with(&[0x6005, 0x8006]);
    run(&mut emu, 2);
    assert_eq!(emu.register(0), 2);
    assert_eq!(emu.register(0xF), 1);
    let mut emu = emulator_with(&[0x6081, 0x800E]);
    run(&mut emu, 2);
    assert_eq!(emu.register(0), 0x02);
    assert_eq!(emu.register(0xF), 1);
    let mut emu = emulator_with(&[0x6041, 0x800E]);
    run(&mut emu, 2);
    assert_eq!(emu.register(0), 0x82);
    assert_eq!(emu.register(0xF), 0);
}

#[test]
fn flag_register_as_target_keeps_flag() {
    // VF = 0xFF; VF += 1 -> VF holds the carry, not the sum
    let mut emu = emulator_with(&[0x6FFF, 0x6101, 0x8F14]);
    run(&mut emu, 3);
    assert_eq!(emu.register(0xF), 1);
}

#[test]
fn set_index_and_jump_offset() {
    let mut emu = emulator_with(&[0xA123, 0x6010, 0xB300]);
    run(&mut emu, 3);
    assert_eq!(emu.index_register(), 0x123);
    assert_eq!(emu.pc(), 0x310);
}

#[test]
fn random_with_given_byte() {
    let mut emu = emulator_with(&[0xC30F]);
    assert!(emu.can_tick());
    emu.tick_with_random(0xAB);
    assert_eq!(emu.register(3), 0x0B);
    assert_eq!(emu.pc(), 0x202);
}

#[test]
fn random_stays_within_mask() {
    for _ in 0..32 {
        let mut emu = emulator_with(&[0xC30F]);
        run(&mut emu, 1);
        assert_eq!(emu.register(3) & 0xF0, 0);
    }
    let mut emu = emulator_with(&[0xC300]);
    run(&mut emu, 1);
    assert_eq!(emu.register(3), 0);
}

#[test]
fn draw_font_digit() {
    // I = sprite of 0; draw at (V1, V2) = (0, 0)
    let mut emu = emulator_with(&[0xA000, 0xD125]);
    run(&mut emu, 2);
    // 0xF0 top row: x = 0..4 lit
    for x in 0..4 {
        assert!(lit(&emu, x, 0));
    }
    assert!(!lit(&emu, 4, 0));
    // 0x90 second row
    assert!(lit(&emu, 0, 1));
    assert!(!lit(&emu, 1, 1));
    assert!(!lit(&emu, 2, 1));
    assert!(lit(&emu, 3, 1));
    assert_eq!(emu.register(0xF), 0);
    let count = emu.get_display().iter().filter(|p| **p).count();
    assert_eq!(count, 14);
}

#[test]
fn draw_twice_erases_and_reports_collision() {
    let mut emu = emulator_with(&[0xA000, 0x610A, 0x6205, 0xD125, 0xD125]);
    run(&mut emu, 4);
    assert!(lit(&emu, 10, 5));
    assert_eq!(emu.register(0xF), 0);
    run(&mut emu, 1);
    assert!(emu.get_display().iter().all(|p| !*p));
    assert_eq!(emu.register(0xF), 1);
}

#[test]
fn draw_wraps_around_edges() {
    // digit 0 at (62, 30): columns 62, 63, 0, 1; rows 30, 31, 0, 1, 2
    let mut emu = emulator_with(&[0xA000, 0x613E, 0x621E, 0xD125]);
    run(&mut emu, 4);
    assert!(lit(&emu, 62, 30));
    assert!(lit(&emu, 63, 30));
    assert!(lit(&emu, 0, 30));
    assert!(lit(&emu, 1, 30));
    assert!(!lit(&emu, 2, 30));
    assert!(lit(&emu, 62, 31));
    assert!(lit(&emu, 1, 31));
    assert!(lit(&emu, 62, 2));
    assert!(lit(&emu, 1, 2));
    assert!(!lit(&emu, 62, 3));
}

#[test]
fn draw_large_coordinates_wrap() {
    // V1 = 0xFF -> column 63, V2 = 0x40 -> row 0; a one-row sprite 0x80
    let mut emu = emulator_with(&[0xA300, 0x61FF, 0x6240, 0xD121]);
    emu.load(&{
        let mut p = program(&[0xA300, 0x61FF, 0x6240, 0xD121]);
        p.resize(0x100, 0);
        p.push(0x80);
        p
    });
    run(&mut emu, 4);
    assert!(lit(&emu, 63, 0));
    assert_eq!(emu.get_display().iter().filter(|p| **p).count(), 1);
}

#[test]
fn draw_zero_rows_clears_flag() {
    let mut emu = emulator_with(&[0x6F07, 0xD120]);
    run(&mut emu, 2);
    assert_eq!(emu.register(0xF), 0);
    assert!(emu.get_display().iter().all(|p| !*p));
}

#[test]
fn draw_past_memory_is_undefined() {
    let mut emu = emulator_with(&[0xAFFE, 0xD125]);
    run(&mut emu, 1);
    assert!(!emu.can_tick());
}

#[test]
fn skip_on_key() {
    let mut emu = emulator_with(&[0x6007, 0xE09E, 0x0000, 0xE0A1]);
    run(&mut emu, 2);
    assert_eq!(emu.pc(), 0x204);
    let mut emu = emulator_with(&[0x6007, 0xE09E, 0x0000, 0xE0A1]);
    emu.keypress(7, true);
    assert!(emu.key_pressed(7));
    run(&mut emu, 2);
    assert_eq!(emu.pc(), 0x206);
    run(&mut emu, 1);
    assert_eq!(emu.pc(), 0x208);
    emu.keypress(7, false);
    assert!(!emu.key_pressed(7));
}

#[test]
fn skip_on_key_out_of_range_is_undefined() {
    let mut emu = emulator_with(&[0x6010, 0xE09E]);
    run(&mut emu, 1);
    assert!(!emu.can_tick());
}

#[test]
fn timers() {
    let mut emu = emulator_with(&[0x6003, 0xF015, 0x6101, 0xF118, 0xF207]);
    run(&mut emu, 4);
    assert_eq!(emu.delay_timer(), 3);
    assert_eq!(emu.sound_timer(), 1);
    emu.tick_timer();
    assert_eq!(emu.delay_timer(), 2);
    assert_eq!(emu.sound_timer(), 0);
    emu.tick_timer();
    emu.tick_timer();
    emu.tick_timer();
    assert_eq!(emu.delay_timer(), 0);
    assert_eq!(emu.sound_timer(), 0);
    run(&mut emu, 1);
    assert_eq!(emu.register(2), 0);
}

#[test]
fn timers_count_down_to_zero_and_stay() {
    let mut emu = emulator_with(&[0x60C8, 0xF015, 0xF018]);
    run(&mut emu, 3);
    for _ in 0..50 {
        emu.tick_timer();
    }
    assert_eq!(emu.delay_timer(), 150);
    assert_eq!(emu.sound_timer(), 150);
    for _ in 0..205 {
        emu.tick_timer();
    }
    assert_eq!(emu.delay_timer(), 0);
    assert_eq!(emu.sound_timer(), 0);
    assert_eq!(emu.register(0), 200);
    assert_eq!(emu.pc(), 0x206);
}

#[test]
fn wait_for_key_blocks_then_stores_lowest_key() {
    let mut emu = emulator_with(&[0xF30A, 0x0000]);
    run(&mut emu, 3);
    assert_eq!(emu.pc(), 0x200);
    emu.keypress(0xB, true);
    emu.keypress(0x6, true);
    run(&mut emu, 1);
    assert_eq!(emu.pc(), 0x202);
    assert_eq!(emu.register(3), 6);
}

#[test]
fn add_index() {
    let mut emu = emulator_with(&[0xA010, 0x6020, 0xF01E]);
    run(&mut emu, 3);
    assert_eq!(emu.index_register(), 0x30);
}

#[test]
fn font_char_address() {
    let mut emu = emulator_with(&[0x600B, 0xF029]);
    run(&mut emu, 2);
    assert_eq!(emu.index_register(), 55);
    assert_eq!(emu.memory(55), 0xE0);
}

#[test]
fn bcd_of_register() {
    let mut emu = emulator_with(&[0x60EA, 0xA300, 0xF033]);
    run(&mut emu, 3);
    assert_eq!(emu.memory(0x300), 2);
    assert_eq!(emu.memory(0x301), 3);
    assert_eq!(emu.memory(0x302), 4);
    let mut emu = emulator_with(&[0x6007, 0xA300, 0xF033]);
    run(&mut emu, 3);
    assert_eq!(
        [emu.memory(0x300), emu.memory(0x301), emu.memory(0x302)],
        [0, 0, 7]
    );
}

#[test]
fn bcd_at_end_of_memory_is_undefined() {
    let mut emu = emulator_with(&[0xAFFE, 0xF033]);
    run(&mut emu, 1);
    assert!(!emu.can_tick());
}

#[test]
fn store_and_load_registers() {
    let mut emu = emulator_with(&[0x6011, 0x6122, 0x6233, 0x6344, 0xA400, 0xF255, 0x6000, 0x6100,
        0x6200, 0x6300, 0xF265]);
    run(&mut emu, 6);
    assert_eq!(emu.memory(0x400), 0x11);
    assert_eq!(emu.memory(0x401), 0x22);
    assert_eq!(emu.memory(0x402), 0x33);
    assert_eq!(emu.memory(0x403), 0);
    run(&mut emu, 5);
    assert_eq!(emu.register(0), 0x11);
    assert_eq!(emu.register(1), 0x22);
    assert_eq!(emu.register(2), 0x33);
    assert_eq!(emu.register(3), 0);
    assert_eq!(emu.index_register(), 0x400);
}

#[test]
fn unimplemented_opcodes_are_undefined() {
    for op in [0x5121u16, 0x8008, 0x800F, 0x9121, 0xE000, 0xE19F, 0xF000, 0xF0FF] {
        let emu = emulator_with(&[op]);
        assert!(!emu.can_tick(), "{:04X}", op);
    }
}

#[test]
fn fetch_past_memory_is_undefined() {
    let mut emu = emulator_with(&[0x1FFF]);
    run(&mut emu, 1);
    assert_eq!(emu.pc(), 0xFFF);
    assert!(!emu.can_tick());
    let mut emu = emulator_with(&[0x1FFE]);
    run(&mut emu, 1);
    assert!(emu.can_tick());
}

#[test]
fn run_frame_runs_ten_cycles_then_timers() {
    let mut ops = vec![0x6005, 0xF015];
    ops.extend(std::iter::repeat(0x7101).take(8));
    ops.push(0x7101);
    let mut emu = emulator_with(&ops);
    assert_eq!(emu.run_frame(), 10);
    assert_eq!(emu.register(1), 8);
    assert_eq!(emu.delay_timer(), 4);
    assert_eq!(emu.pc(), 0x214);
}

#[test]
fn run_frame_stops_at_undefined_cycle() {
    let mut emu = emulator_with(&[0x6005, 0xF015, 0x6003, 0x00EE]);
    assert_eq!(emu.run_frame(), 3);
    assert_eq!(emu.pc(), 0x206);
    assert_eq!(emu.delay_timer(), 5);
}
