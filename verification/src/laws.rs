//! Properties of the machine that hold across instructions and operations.
use vstd::prelude::*;
use crate::instruction::Instruction;
use crate::machine::{FONTSET_SIZE, RAM_SIZE, START_ADDR};
use crate::state::Chip8View;
use crate::instruction;
use crate::machine;
use crate::semantics;
use crate::sprite;
use crate::state;

verus! {

/// A fresh (or reset) machine holds the built-in font at the bottom of
/// memory and starts executing at `START_ADDR`.
pub proof fn law_fresh_machine_has_font()
    ensures
        state::initial_view().wf(),
        state::initial_view().ram.subrange(0, FONTSET_SIZE as int) == machine::fontset_spec(),
        state::initial_view().pc == START_ADDR,
{
    assert(state::initial_view().ram.subrange(0, FONTSET_SIZE as int) =~= machine::fontset_spec());
}

/// After a program is loaded into a fresh machine, the first opcode that
/// runs is the program's first two bytes, read big-endian; the font stays.
pub proof fn law_program_runs_from_start(data: Seq<u8>)
    requires
        2 <= data.len(),
        state::program_fits(data.len() as int),
    ensures
        state::fetch_ok(state::load_spec(state::initial_view(), data)),
        state::opcode_at(state::load_spec(state::initial_view(), data)) == data[0] * 256
            + data[1],
        state::load_spec(state::initial_view(), data).ram.subrange(0, FONTSET_SIZE as int)
            == machine::fontset_spec(),
{
    let s = state::load_spec(state::initial_view(), data);
    assert(s.ram[START_ADDR as int] == data[0]);
    assert(s.ram[START_ADDR + 1] == data[1]);
    assert(s.ram.subrange(0, FONTSET_SIZE as int) =~= machine::fontset_spec());
}

/// Popping right after a push gives back the pushed address and restores
/// the stack depth; only the slot above the stack top keeps the address.
pub proof fn law_pop_undoes_push(s: Chip8View, val: u16)
    requires
        s.wf(),
        s.sp < 16,
    ensures
        state::push_spec(s, val).wf(),
        state::stack_top(state::push_spec(s, val)) == val,
        state::pop_spec(state::push_spec(s, val)) == (Chip8View {
            stack: s.stack.update(s.sp as int, val),
            ..s
        }),
{
    assert(state::pop_spec(state::push_spec(s, val)) =~= (Chip8View {
        stack: s.stack.update(s.sp as int, val),
        ..s
    }));
}

/// After `k` timer ticks each timer has counted down by `k`, stopping at
/// zero; nothing else changes.
pub proof fn law_timers_count_down(s: Chip8View, k: nat)
    ensures
        state::tick_timer_times(s, k).delay_timer == (if s.delay_timer >= k {
            s.delay_timer - k
        } else {
            0
        }),
        state::tick_timer_times(s, k).sound_timer == (if s.sound_timer >= k {
            s.sound_timer - k
        } else {
            0
        }),
        state::tick_timer_times(s, k) == (Chip8View {
            delay_timer: state::tick_timer_times(s, k).delay_timer,
            sound_timer: state::tick_timer_times(s, k).sound_timer,
            ..s
        }),
    decreases k,
{
    if k > 0 {
        law_timers_count_down(s, (k - 1) as nat);
    }
}

/// Every `0NNN` opcode other than `00E0` and `00EE` (a machine-code call,
/// or `0000`) is defined and leaves the machine as it is.
pub proof fn law_machine_code_call_does_nothing(s: Chip8View, op: u16, r: u8)
    requires
        op <= 0x0FFF,
        op != 0x00E0,
        op != 0x00EE,
    ensures
        semantics::opcode_ok(s, op),
        semantics::execute_opcode_spec(s, op, r) == s,
{
}

/// A call followed by a return comes back to the instruction after the
/// call, with the stack depth restored; only the slot above the stack top
/// keeps the return address.
pub proof fn law_call_then_return(s: Chip8View, addr: u16, r1: u8, r2: u8)
    requires
        s.wf(),
        semantics::instruction_ok(s, Instruction::Call { addr }),
    ensures
        semantics::instruction_ok(
            semantics::execute_spec(s, Instruction::Call { addr }, r1),
            Instruction::Return,
        ),
        semantics::execute_spec(
            semantics::execute_spec(s, Instruction::Call { addr }, r1),
            Instruction::Return,
            r2,
        ) == (Chip8View { stack: s.stack.update(s.sp as int, s.pc), ..s }),
{
    let s2 = semantics::execute_spec(
        semantics::execute_spec(s, Instruction::Call { addr }, r1),
        Instruction::Return,
        r2,
    );
    assert(s2 =~= (Chip8View { stack: s.stack.update(s.sp as int, s.pc), ..s }));
}

/// Drawing the same sprite twice at the same place restores the screen
/// (XOR drawing), unless a coordinate register is VF, which the first
/// draw overwrites.
pub proof fn law_draw_twice_restores_screen(s: Chip8View, x: u8, y: u8, rows: u8, r1: u8, r2: u8)
    requires
        s.wf(),
        semantics::instruction_ok(s, Instruction::Draw { x, y, rows }),
        x != 0xF,
        y != 0xF,
    ensures
        semantics::instruction_ok(
            semantics::execute_spec(s, Instruction::Draw { x, y, rows }, r1),
            Instruction::Draw { x, y, rows },
        ),
        semantics::execute_spec(
            semantics::execute_spec(s, Instruction::Draw { x, y, rows }, r1),
            Instruction::Draw { x, y, rows },
            r2,
        ).screen == s.screen,
{
    let s1 = semantics::execute_spec(s, Instruction::Draw { x, y, rows }, r1);
    let s2 = semantics::execute_spec(s1, Instruction::Draw { x, y, rows }, r2);
    assert(s1.v[x as int] == s.v[x as int]);
    assert(s1.v[y as int] == s.v[y as int]);
    assert(s2.screen =~= s.screen);
}

/// `FX33` stores the decimal digits of VX: hundreds, tens and ones, each
/// below ten, that add back up to VX.
pub proof fn law_bcd_digits(s: Chip8View, x: u8, r: u8)
    requires
        s.wf(),
        semantics::instruction_ok(s, Instruction::StoreBcd { x }),
    ensures
        ({
            let t = semantics::execute_spec(s, Instruction::StoreBcd { x }, r);
            let a = s.i as int;
            &&& t.ram[a] < 10
            &&& t.ram[a + 1] < 10
            &&& t.ram[a + 2] < 10
            &&& t.ram[a] * 100 + t.ram[a + 1] * 10 + t.ram[a + 2] == s.v[x as int]
        }),
{
}

/// Loading registers right after storing them changes nothing: `FX65`
/// reads back what `FX55` wrote.
pub proof fn law_store_then_load_registers(s: Chip8View, x: u8, r1: u8, r2: u8)
    requires
        s.wf(),
        semantics::instruction_ok(s, Instruction::StoreRegs { x }),
    ensures
        semantics::instruction_ok(
            semantics::execute_spec(s, Instruction::StoreRegs { x }, r1),
            Instruction::LoadRegs { x },
        ),
        semantics::execute_spec(
            semantics::execute_spec(s, Instruction::StoreRegs { x }, r1),
            Instruction::LoadRegs { x },
            r2,
        ) == semantics::execute_spec(s, Instruction::StoreRegs { x }, r1),
{
    let s1 = semantics::execute_spec(s, Instruction::StoreRegs { x }, r1);
    let s2 = semantics::execute_spec(s1, Instruction::LoadRegs { x }, r2);
    assert(s2.v =~= s1.v);
    assert(s2 =~= s1);
}

/// `8XY4` loses nothing: the new VX plus 256 times the carry in VF is the
/// exact sum (when X is not VF itself).
pub proof fn law_add_carry(s: Chip8View, x: u8, y: u8, r: u8)
    requires
        s.wf(),
        semantics::instruction_ok(s, Instruction::AddReg { x, y }),
        x != 0xF,
    ensures
        ({
            let t = semantics::execute_spec(s, Instruction::AddReg { x, y }, r);
            &&& t.v[0xF] <= 1
            &&& t.v[x as int] + 256 * t.v[0xF] == s.v[x as int] + s.v[y as int]
        }),
{
}

/// `8XY5` and `8XY7`: VF is 1 exactly when no borrow occurs, and the new VX
/// is the difference modulo 256 (when X is not VF itself).
pub proof fn law_sub_borrow(s: Chip8View, x: u8, y: u8, r: u8)
    requires
        s.wf(),
        semantics::instruction_ok(s, Instruction::SubReg { x, y }),
        x != 0xF,
    ensures
        ({
            let t = semantics::execute_spec(s, Instruction::SubReg { x, y }, r);
            &&& (t.v[0xF] == 1) == (s.v[x as int] >= s.v[y as int])
            &&& (t.v[0xF] == 0) == (s.v[x as int] < s.v[y as int])
            &&& t.v[x as int] == s.v[x as int] - s.v[y as int] + 256 * (1 - t.v[0xF])
        }),
        ({
            let t = semantics::execute_spec(s, Instruction::SubReversed { x, y }, r);
            &&& (t.v[0xF] == 1) == (s.v[y as int] >= s.v[x as int])
            &&& (t.v[0xF] == 0) == (s.v[y as int] < s.v[x as int])
            &&& t.v[x as int] == s.v[y as int] - s.v[x as int] + 256 * (1 - t.v[0xF])
        }),
{
}

/// The shifts keep the bit they drop in VF: shifting right, VX is twice
/// the new VX plus VF; shifting left, twice VX is the new VX plus 256 times
/// VF (when X is not VF itself).
pub proof fn law_shift_keeps_dropped_bit(s: Chip8View, x: u8, y: u8, r: u8)
    requires
        s.wf(),
        semantics::instruction_ok(s, Instruction::ShiftRight { x, y }),
        x != 0xF,
    ensures
        ({
            let t = semantics::execute_spec(s, Instruction::ShiftRight { x, y }, r);
            &&& t.v[0xF] <= 1
            &&& s.v[x as int] == 2 * t.v[x as int] + t.v[0xF]
        }),
        ({
            let t = semantics::execute_spec(s, Instruction::ShiftLeft { x, y }, r);
            &&& t.v[0xF] <= 1
            &&& 2 * s.v[x as int] == t.v[x as int] + 256 * t.v[0xF]
        }),
{
}

/// `CXNN` keeps only bits of the mask NN, whatever the random byte.
pub proof fn law_random_within_mask(s: Chip8View, x: u8, byte: u8, r: u8)
    requires
        s.wf(),
        semantics::instruction_ok(s, Instruction::Random { x, byte }),
    ensures
        semantics::execute_spec(s, Instruction::Random { x, byte }, r).v[x as int] & !byte == 0,
        semantics::execute_spec(s, Instruction::Random { x, byte }, r).v[x as int] <= byte,
{
    let v: u8 = r & byte;
    assert(v & !byte == 0 && v <= byte) by (bit_vector)
        requires
            v == r & byte,
    ;
}

/// A cycle on `FX0A` while no key is pressed leaves the whole machine as
/// it was: the opcode blocks until a key goes down.
pub proof fn law_wait_key_blocks(s: Chip8View, r: u8)
    requires
        s.wf(),
        state::fetch_ok(s),
        instruction::decode_spec(state::opcode_at(s)) matches Some(Instruction::WaitKey { .. }),
        !semantics::any_key_pressed(s.keys),
    ensures
        semantics::tick_ok(s),
        semantics::tick_spec(s, r) == s,
{
    semantics::lemma_decode_wf(state::opcode_at(s));
    assert(semantics::tick_spec(s, r) =~= s);
}

/// Only `CXNN` reads the random byte: every other instruction has the same
/// effect whatever byte is supplied.
pub proof fn law_only_random_reads_random(s: Chip8View, ins: Instruction, r1: u8, r2: u8)
    requires
        !(ins matches Instruction::Random { .. }),
    ensures
        semantics::execute_spec(s, ins, r1) == semantics::execute_spec(s, ins, r2),
{
}

/// Every instruction whose execution is defined keeps the machine's shape:
/// sizes of memory, screen, registers, stack and keypad, and a stack
/// pointer within the stack.
pub proof fn law_execute_keeps_shape(s: Chip8View, ins: Instruction, r: u8)
    requires
        s.wf(),
        semantics::instruction_ok(s, ins),
    ensures
        semantics::execute_spec(s, ins, r).wf(),
{
}

/// A CPU cycle never counts the timers down; only `FX15` and `FX18` write
/// them, so the timers run independently of the CPU clock.
pub proof fn law_instructions_leave_timers(s: Chip8View, ins: Instruction, r: u8)
    requires
        !(ins is SetDelay),
        !(ins is SetSound),
    ensures
        semantics::execute_spec(s, ins, r).delay_timer == s.delay_timer,
        semantics::execute_spec(s, ins, r).sound_timer == s.sound_timer,
{
}

/// `FX29` points I at the five font rows of digit VX, as long as the font
/// at the bottom of memory is intact.
pub proof fn law_font_char_points_at_digit(s: Chip8View, x: u8, r: u8)
    requires
        s.wf(),
        semantics::instruction_ok(s, Instruction::FontChar { x }),
        s.v[x as int] < 16,
        s.ram.subrange(0, FONTSET_SIZE as int) == machine::fontset_spec(),
    ensures
        ({
            let t = semantics::execute_spec(s, Instruction::FontChar { x }, r);
            let d = s.v[x as int] as int;
            t.ram.subrange(t.i as int, t.i + 5) == machine::fontset_spec().subrange(
                5 * d,
                5 * d + 5,
            )
        }),
{
    let t = semantics::execute_spec(s, Instruction::FontChar { x }, r);
    let d = s.v[x as int] as int;
    assert forall|k: int| 0 <= k < 5 implies #[trigger] t.ram.subrange(t.i as int, t.i + 5)[k]
        == machine::fontset_spec().subrange(5 * d, 5 * d + 5)[k] by {
        assert(s.ram.subrange(0, FONTSET_SIZE as int)[5 * d + k] == s.ram[5 * d + k]);
    }
    assert(t.ram.subrange(t.i as int, t.i + 5) =~= machine::fontset_spec().subrange(
        5 * d,
        5 * d + 5,
    ));
}

/// Whether column `c` (0 = leftmost) of row `r` of the sprite at I is set.
pub open spec fn sprite_cell_set(s: Chip8View, r: int, c: int) -> bool {
    s.ram[s.i + r] & (0x80u8 >> (c as u8)) != 0
}

/// The screen pixel on which sprite cell (`r`, `c`) lands when the sprite's
/// top-left corner is at column `x0`, line `y0` of the 64x32 screen,
/// wrapping around both edges.
pub open spec fn landing_pixel(x0: int, y0: int, r: int, c: int) -> int {
    64 * ((y0 + r) % 32) + (x0 + c) % 64
}

/// `DXYN` sets VF to 1 exactly when some set cell of any of the N sprite
/// rows (the last one included) lands on a pixel that was lit, and to 0
/// otherwise; each pixel flips exactly when a set cell lands on it.
pub proof fn law_draw_collision_and_xor(s: Chip8View, x: u8, y: u8, rows: u8, rnd: u8)
    requires
        s.wf(),
        semantics::instruction_ok(s, Instruction::Draw { x, y, rows }),
    ensures
        ({
            let t = semantics::execute_spec(s, Instruction::Draw { x, y, rows }, rnd);
            let x0 = s.v[x as int] as int;
            let y0 = s.v[y as int] as int;
            &&& t.v[0xF] == 0 || t.v[0xF] == 1
            &&& (t.v[0xF] == 1) == (exists|r: int, c: int|
                0 <= r < rows && 0 <= c < 8 && #[trigger] sprite_cell_set(s, r, c)
                    && s.screen[landing_pixel(x0, y0, r, c)])
            &&& forall|p: int|
                0 <= p < 2048 ==> #[trigger] t.screen[p] == (s.screen[p] != exists|r: int, c: int|
                    0 <= r < rows && 0 <= c < 8 && #[trigger] sprite_cell_set(s, r, c) && p
                        == landing_pixel(x0, y0, r, c))
        }),
{
    let t = semantics::execute_spec(s, Instruction::Draw { x, y, rows }, rnd);
    let x0 = s.v[x as int] as int;
    let y0 = s.v[y as int] as int;
    let n = rows as int;
    assert forall|p: int|
        0 <= p < 2048 implies semantics::sprite_covers(s, x0, y0, n, p) == (exists|r: int, c: int|
        0 <= r < rows && 0 <= c < 8 && #[trigger] sprite_cell_set(s, r, c) && p
            == landing_pixel(x0, y0, r, c)) by {
        sprite::lemma_pixel_cell(x0, y0, p);
        let r0 = semantics::sprite_row_at(y0, p);
        let c0 = semantics::sprite_col_at(x0, p);
        if semantics::sprite_covers(s, x0, y0, n, p) {
            assert(sprite_cell_set(s, r0, c0));
        }
        if exists|r: int, c: int|
            0 <= r < rows && 0 <= c < 8 && #[trigger] sprite_cell_set(s, r, c) && p
                == landing_pixel(x0, y0, r, c) {
            let (r, c) = choose|r: int, c: int|
                0 <= r < rows && 0 <= c < 8 && #[trigger] sprite_cell_set(s, r, c) && p
                    == landing_pixel(x0, y0, r, c);
            sprite::lemma_cell_pixel(x0, y0, r, c);
        }
    }
    if semantics::draw_collides(s, x0, y0, n) {
        let p = choose|p: int|
            0 <= p < s.screen.len() && #[trigger] semantics::sprite_covers(s, x0, y0, n, p)
                && s.screen[p];
        sprite::lemma_pixel_cell(x0, y0, p);
        let r0 = semantics::sprite_row_at(y0, p);
        let c0 = semantics::sprite_col_at(x0, p);
        assert(sprite_cell_set(s, r0, c0));
    }
    if exists|r: int, c: int|
        0 <= r < rows && 0 <= c < 8 && #[trigger] sprite_cell_set(s, r, c)
            && s.screen[landing_pixel(x0, y0, r, c)] {
        let (r, c) = choose|r: int, c: int|
            0 <= r < rows && 0 <= c < 8 && #[trigger] sprite_cell_set(s, r, c)
                && s.screen[landing_pixel(x0, y0, r, c)];
        sprite::lemma_cell_pixel(x0, y0, r, c);
        let p = landing_pixel(x0, y0, r, c);
        assert(semantics::sprite_covers(s, x0, y0, n, p));
    }
}

/// Drawing a sprite with at least one set cell twice at the same place
/// reports a collision at least once: a pixel it covers is lit either
/// before the first draw or before the second.
pub proof fn law_draw_twice_collides(s: Chip8View, x: u8, y: u8, rows: u8, r1: u8, r2: u8)
    requires
        s.wf(),
        semantics::instruction_ok(s, Instruction::Draw { x, y, rows }),
        x != 0xF,
        y != 0xF,
        exists|r: int, c: int| 0 <= r < rows && 0 <= c < 8 && #[trigger] sprite_cell_set(s, r, c),
    ensures
        ({
            let t1 = semantics::execute_spec(s, Instruction::Draw { x, y, rows }, r1);
            let t2 = semantics::execute_spec(t1, Instruction::Draw { x, y, rows }, r2);
            t1.v[0xF] == 1 || t2.v[0xF] == 1
        }),
        s.screen == state::blank_screen() ==> semantics::execute_spec(
            semantics::execute_spec(s, Instruction::Draw { x, y, rows }, r1),
            Instruction::Draw { x, y, rows },
            r2,
        ).v[0xF] == 1,
{
    let t1 = semantics::execute_spec(s, Instruction::Draw { x, y, rows }, r1);
    let x0 = s.v[x as int] as int;
    let y0 = s.v[y as int] as int;
    let (r, c) = choose|r: int, c: int|
        0 <= r < rows && 0 <= c < 8 && #[trigger] sprite_cell_set(s, r, c);
    sprite::lemma_cell_pixel(x0, y0, r, c);
    let p = landing_pixel(x0, y0, r, c);
    law_draw_collision_and_xor(s, x, y, rows, r1);
    assert(t1.v[x as int] == s.v[x as int]);
    assert(t1.v[y as int] == s.v[y as int]);
    assert(sprite_cell_set(t1, r, c) == sprite_cell_set(s, r, c));
    law_draw_collision_and_xor(t1, x, y, rows, r2);
    assert(t1.screen[p] == (s.screen[p] != true));
    if !s.screen[p] {
        assert(t1.screen[landing_pixel(x0, y0, r, c)]);
    } else {
        assert(s.screen[landing_pixel(x0, y0, r, c)]);
    }
}

/// `7XNN` adds NN to VX modulo 256 and changes nothing else: no register
/// other than VX, VF in particular, and no other part of the machine.
pub proof fn law_add_byte_leaves_flags(s: Chip8View, x: u8, byte: u8, rnd: u8)
    requires
        s.wf(),
        semantics::instruction_ok(s, Instruction::AddByte { x, byte }),
    ensures
        ({
            let t = semantics::execute_spec(s, Instruction::AddByte { x, byte }, rnd);
            &&& t.v[x as int] as int == (s.v[x as int] + byte) % 256
            &&& forall|k: int| 0 <= k < 16 && k != x ==> #[trigger] t.v[k] == s.v[k]
            &&& t.v.len() == s.v.len()
            &&& t.pc == s.pc && t.i == s.i && t.sp == s.sp
            &&& t.ram == s.ram && t.screen == s.screen && t.stack == s.stack && t.keys == s.keys
            &&& t.delay_timer == s.delay_timer && t.sound_timer == s.sound_timer
        }),
{
}

/// After `keypress(idx, pressed)` key `idx` is down exactly when `pressed`
/// is true, every other key and the rest of the machine are unchanged, and
/// repeating the same event changes nothing more.
pub proof fn law_keypress_sets_key(s: Chip8View, idx: int, pressed: bool)
    requires
        s.wf(),
        0 <= idx < 16,
    ensures
        state::keypress_spec(s, idx, pressed).keys[idx] == pressed,
        forall|k: int|
            0 <= k < 16 && k != idx ==> #[trigger] state::keypress_spec(s, idx, pressed).keys[k]
                == s.keys[k],
        state::keypress_spec(s, idx, pressed).keys.len() == s.keys.len(),
        state::keypress_spec(state::keypress_spec(s, idx, pressed), idx, pressed)
            == state::keypress_spec(s, idx, pressed),
        (Chip8View { keys: s.keys, ..state::keypress_spec(s, idx, pressed) }) == s,
{
    let t = state::keypress_spec(s, idx, pressed);
    assert(state::keypress_spec(t, idx, pressed) =~= t);
    assert((Chip8View { keys: s.keys, ..t }) =~= s);
}

/// `FX07` copies the delay timer (not the sound timer) into VX, and `FX07`
/// right after `FX15` reads back the value `FX15` stored.
pub proof fn law_load_delay_reads_delay(s: Chip8View, x: u8, y: u8, r1: u8, r2: u8)
    requires
        s.wf(),
        x < 16,
        y < 16,
    ensures
        semantics::execute_spec(s, Instruction::LoadDelay { x }, r1).v[x as int]
            == s.delay_timer,
        semantics::execute_spec(
            semantics::execute_spec(s, Instruction::SetDelay { x: y }, r1),
            Instruction::LoadDelay { x },
            r2,
        ).v[x as int] == s.v[y as int],
        semantics::execute_spec(s, Instruction::LoadDelay { x }, r1).delay_timer == s.delay_timer,
        semantics::execute_spec(s, Instruction::LoadDelay { x }, r1).sound_timer == s.sound_timer,
{
}

/// `FX0A` with some key down stores the lowest-numbered key that is down
/// (any of the sixteen) in VX and lets execution go on; only when no key
/// at all is down does it move `pc` back onto itself and change nothing
/// else.
pub proof fn law_wait_key_stores_lowest_key(s: Chip8View, x: u8, rnd: u8)
    requires
        s.wf(),
        semantics::instruction_ok(s, Instruction::WaitKey { x }),
    ensures
        ({
            let t = semantics::execute_spec(s, Instruction::WaitKey { x }, rnd);
            &&& (exists|k: int| 0 <= k < 16 && #[trigger] s.keys[k]) ==> {
                &&& t.pc == s.pc
                &&& t.v[x as int] < 16
                &&& s.keys[t.v[x as int] as int]
                &&& forall|j: int| 0 <= j < t.v[x as int] ==> !#[trigger] s.keys[j]
                &&& forall|k: int| 0 <= k < 16 && k != x ==> #[trigger] t.v[k] == s.v[k]
            }
            &&& (forall|k: int| 0 <= k < 16 ==> !#[trigger] s.keys[k]) ==> t == (Chip8View {
                pc: (s.pc - 2) as u16,
                ..s
            })
        }),
{
    if exists|k: int| 0 <= k < 16 && #[trigger] s.keys[k] {
        let k = choose|k: int| 0 <= k < 16 && #[trigger] s.keys[k];
        assert(semantics::any_key_pressed(s.keys));
        let f = semantics::first_pressed(s.keys);
        lemma_some_first_pressed(s.keys, k);
        assert(semantics::is_first_pressed(s.keys, f));
    }
}

/// When some key is down, there is a lowest-numbered one.
proof fn lemma_some_first_pressed(keys: Seq<bool>, k: int)
    requires
        0 <= k < keys.len(),
        keys[k],
    ensures
        exists|f: int| semantics::is_first_pressed(keys, f),
    decreases k,
{
    if exists|j: int| 0 <= j < k && #[trigger] keys[j] {
        let j = choose|j: int| 0 <= j < k && #[trigger] keys[j];
        lemma_some_first_pressed(keys, j);
    } else {
        assert(semantics::is_first_pressed(keys, k));
    }
}

/// `t` differs from `s` at most in the registers, and of those at most in
/// `x` and `other`.
pub open spec fn registers_differ_at_most(s: Chip8View, t: Chip8View, x: int, other: int) -> bool {
    &&& t == (Chip8View { v: t.v, ..s })
    &&& t.v.len() == s.v.len()
    &&& forall|k: int| 0 <= k < s.v.len() && k != x && k != other ==> #[trigger] t.v[k] == s.v[k]
}

/// The register-loading instructions write VX only: `6XNN` the byte,
/// `8XY0` VY, `8XY1`/`8XY2`/`8XY3` the OR/AND/XOR of VX and VY, `CXNN` the
/// random byte masked by NN; every other register and the rest of the
/// machine stay as they were.
pub proof fn law_register_writes(s: Chip8View, x: u8, y: u8, byte: u8, rnd: u8)
    requires
        s.wf(),
        x < 16,
        y < 16,
    ensures
        ({
            let t = semantics::execute_spec(s, Instruction::LoadByte { x, byte }, rnd);
            t.v[x as int] == byte && registers_differ_at_most(s, t, x as int, x as int)
        }),
        ({
            let t = semantics::execute_spec(s, Instruction::Move { x, y }, rnd);
            t.v[x as int] == s.v[y as int] && registers_differ_at_most(s, t, x as int, x as int)
        }),
        ({
            let t = semantics::execute_spec(s, Instruction::Or { x, y }, rnd);
            t.v[x as int] == s.v[x as int] | s.v[y as int] && registers_differ_at_most(
                s,
                t,
                x as int,
                x as int,
            )
        }),
        ({
            let t = semantics::execute_spec(s, Instruction::And { x, y }, rnd);
            t.v[x as int] == s.v[x as int] & s.v[y as int] && registers_differ_at_most(
                s,
                t,
                x as int,
                x as int,
            )
        }),
        ({
            let t = semantics::execute_spec(s, Instruction::Xor { x, y }, rnd);
            t.v[x as int] == s.v[x as int] ^ s.v[y as int] && registers_differ_at_most(
                s,
                t,
                x as int,
                x as int,
            )
        }),
        ({
            let t = semantics::execute_spec(s, Instruction::Random { x, byte }, rnd);
            t.v[x as int] == rnd & byte && registers_differ_at_most(s, t, x as int, x as int)
        }),
{
}

/// The flag-setting arithmetic instructions (`8XY4`-`8XY7`, `8XYE`) write
/// VX and VF and nothing else; VF ends as 0 or 1.
pub proof fn law_flag_writes(s: Chip8View, x: u8, y: u8, rnd: u8)
    requires
        s.wf(),
        x < 16,
        y < 16,
    ensures
        registers_differ_at_most(
            s,
            semantics::execute_spec(s, Instruction::AddReg { x, y }, rnd),
            x as int,
            0xF,
        ),
        registers_differ_at_most(
            s,
            semantics::execute_spec(s, Instruction::SubReg { x, y }, rnd),
            x as int,
            0xF,
        ),
        registers_differ_at_most(
            s,
            semantics::execute_spec(s, Instruction::ShiftRight { x, y }, rnd),
            x as int,
            0xF,
        ),
        registers_differ_at_most(
            s,
            semantics::execute_spec(s, Instruction::SubReversed { x, y }, rnd),
            x as int,
            0xF,
        ),
        registers_differ_at_most(
            s,
            semantics::execute_spec(s, Instruction::ShiftLeft { x, y }, rnd),
            x as int,
            0xF,
        ),
        semantics::execute_spec(s, Instruction::AddReg { x, y }, rnd).v[0xF] <= 1,
        semantics::execute_spec(s, Instruction::SubReg { x, y }, rnd).v[0xF] <= 1,
        semantics::execute_spec(s, Instruction::ShiftRight { x, y }, rnd).v[0xF] <= 1,
        semantics::execute_spec(s, Instruction::SubReversed { x, y }, rnd).v[0xF] <= 1,
        semantics::execute_spec(s, Instruction::ShiftLeft { x, y }, rnd).v[0xF] <= 1,
{
}

/// The skip instructions move `pc` on by one more instruction (two bytes)
/// exactly when their condition holds, and change nothing else:
/// `3XNN` VX == NN, `4XNN` VX != NN, `5XY0` VX == VY, `9XY0` VX != VY,
/// `EX9E` key VX down, `EXA1` key VX up.
pub proof fn law_skips(s: Chip8View, x: u8, y: u8, byte: u8, rnd: u8)
    requires
        s.wf(),
        x < 16,
        y < 16,
        s.pc + 2 <= u16::MAX,
        s.v[x as int] < 16,
    ensures
        semantics::execute_spec(s, Instruction::SkipIfEqualByte { x, byte }, rnd) == (Chip8View {
            pc: if s.v[x as int] == byte { (s.pc + 2) as u16 } else { s.pc },
            ..s
        }),
        semantics::execute_spec(s, Instruction::SkipIfNotEqualByte { x, byte }, rnd) == (Chip8View {
            pc: if s.v[x as int] != byte { (s.pc + 2) as u16 } else { s.pc },
            ..s
        }),
        semantics::execute_spec(s, Instruction::SkipIfEqualReg { x, y }, rnd) == (Chip8View {
            pc: if s.v[x as int] == s.v[y as int] { (s.pc + 2) as u16 } else { s.pc },
            ..s
        }),
        semantics::execute_spec(s, Instruction::SkipIfNotEqualReg { x, y }, rnd) == (Chip8View {
            pc: if s.v[x as int] != s.v[y as int] { (s.pc + 2) as u16 } else { s.pc },
            ..s
        }),
        semantics::execute_spec(s, Instruction::SkipIfKey { x }, rnd) == (Chip8View {
            pc: if s.keys[s.v[x as int] as int] { (s.pc + 2) as u16 } else { s.pc },
            ..s
        }),
        semantics::execute_spec(s, Instruction::SkipIfNotKey { x }, rnd) == (Chip8View {
            pc: if !s.keys[s.v[x as int] as int] { (s.pc + 2) as u16 } else { s.pc },
            ..s
        }),
{
}

/// Jumps, calls, returns, `0000`/`0NNN`, `00E0` and `ANNN`: each changes
/// only what it names. A jump sets `pc` to NNN (`BNNN`: V0 + NNN); a call
/// stores the address of the next instruction in the free stack slot,
/// deepens the stack by one and jumps; a return jumps to the top address
/// and shortens the stack by one; `ANNN` sets I; `00E0` turns every pixel
/// off.
pub proof fn law_control_flow(s: Chip8View, addr: u16, rnd: u8)
    requires
        s.wf(),
        addr < 0x1000,
    ensures
        semantics::execute_spec(s, Instruction::Nop, rnd) == s,
        semantics::execute_spec(s, Instruction::SysCall { addr }, rnd) == s,
        semantics::execute_spec(s, Instruction::Jump { addr }, rnd) == (Chip8View {
            pc: addr,
            ..s
        }),
        semantics::execute_spec(s, Instruction::JumpOffset { addr }, rnd).pc == s.v[0] + addr,
        semantics::execute_spec(s, Instruction::JumpOffset { addr }, rnd) == (Chip8View {
            pc: semantics::execute_spec(s, Instruction::JumpOffset { addr }, rnd).pc,
            ..s
        }),
        semantics::execute_spec(s, Instruction::SetIndex { addr }, rnd) == (Chip8View {
            i: addr,
            ..s
        }),
        ({
            let t = semantics::execute_spec(s, Instruction::ClearScreen, rnd);
            &&& t.screen.len() == 2048
            &&& forall|p: int| 0 <= p < 2048 ==> !#[trigger] t.screen[p]
            &&& t == (Chip8View { screen: t.screen, ..s })
        }),
        s.sp < 16 ==> {
            let t = semantics::execute_spec(s, Instruction::Call { addr }, rnd);
            &&& t.pc == addr
            &&& t.sp == s.sp + 1
            &&& t.stack.len() == s.stack.len()
            &&& t.stack[s.sp as int] == s.pc
            &&& forall|k: int| 0 <= k < 16 && k != s.sp ==> #[trigger] t.stack[k] == s.stack[k]
            &&& t == (Chip8View { pc: t.pc, sp: t.sp, stack: t.stack, ..s })
        },
        s.sp >= 1 ==> {
            let t = semantics::execute_spec(s, Instruction::Return, rnd);
            &&& t.pc == s.stack[s.sp - 1]
            &&& t.sp == s.sp - 1
            &&& t == (Chip8View { pc: t.pc, sp: t.sp, ..s })
        },
{
    let t = semantics::execute_spec(s, Instruction::ClearScreen, rnd);
    assert(t == (Chip8View { screen: t.screen, ..s }));
}

/// The index and timer instructions change only what they name:
/// `FX1E` adds VX to I modulo 2^16, `FX29` sets I to 5 * VX, `FX15` sets the
/// delay timer to VX, `FX18` sets the sound timer to VX.
pub proof fn law_index_and_timers(s: Chip8View, x: u8, rnd: u8)
    requires
        s.wf(),
        x < 16,
    ensures
        semantics::execute_spec(s, Instruction::AddIndex { x }, rnd).i == (s.i + s.v[x as int])
            % 0x10000,
        semantics::execute_spec(s, Instruction::AddIndex { x }, rnd) == (Chip8View {
            i: semantics::execute_spec(s, Instruction::AddIndex { x }, rnd).i,
            ..s
        }),
        semantics::execute_spec(s, Instruction::FontChar { x }, rnd).i == 5 * s.v[x as int],
        semantics::execute_spec(s, Instruction::FontChar { x }, rnd) == (Chip8View {
            i: semantics::execute_spec(s, Instruction::FontChar { x }, rnd).i,
            ..s
        }),
        semantics::execute_spec(s, Instruction::SetDelay { x }, rnd) == (Chip8View {
            delay_timer: s.v[x as int],
            ..s
        }),
        semantics::execute_spec(s, Instruction::SetSound { x }, rnd) == (Chip8View {
            sound_timer: s.v[x as int],
            ..s
        }),
{
}

/// `FX33`, `FX55` and `FX65` touch only the memory or registers they name:
/// `FX33` the three bytes from I, `FX55` the bytes I..=I+X (which receive
/// V0..=VX), `FX65` the registers V0..=VX (which receive those bytes).
pub proof fn law_memory_transfers(s: Chip8View, x: u8, rnd: u8)
    requires
        s.wf(),
        x < 16,
        s.i + 2 < RAM_SIZE,
        s.i + x < RAM_SIZE,
    ensures
        ({
            let t = semantics::execute_spec(s, Instruction::StoreBcd { x }, rnd);
            &&& t == (Chip8View { ram: t.ram, ..s })
            &&& t.ram.len() == s.ram.len()
            &&& forall|a: int|
                0 <= a < RAM_SIZE && !(s.i <= a < s.i + 3) ==> #[trigger] t.ram[a] == s.ram[a]
        }),
        ({
            let t = semantics::execute_spec(s, Instruction::StoreRegs { x }, rnd);
            &&& t == (Chip8View { ram: t.ram, ..s })
            &&& t.ram.len() == s.ram.len()
            &&& forall|k: int| 0 <= k <= x ==> #[trigger] t.ram[s.i + k] == s.v[k]
            &&& forall|a: int|
                0 <= a < RAM_SIZE && !(s.i <= a <= s.i + x) ==> #[trigger] t.ram[a] == s.ram[a]
        }),
        ({
            let t = semantics::execute_spec(s, Instruction::LoadRegs { x }, rnd);
            &&& t == (Chip8View { v: t.v, ..s })
            &&& t.v.len() == s.v.len()
            &&& forall|k: int| 0 <= k <= x ==> #[trigger] t.v[k] == s.ram[s.i + k]
            &&& forall|k: int| x < k < 16 ==> #[trigger] t.v[k] == s.v[k]
        }),
{
    let t = semantics::execute_spec(s, Instruction::StoreRegs { x }, rnd);
    assert forall|k: int| 0 <= k <= x implies #[trigger] t.ram[s.i + k] == s.v[k] by {
        assert(s.i <= s.i + k <= s.i + x);
    }
}

/// `load` copies the program byte for byte to `START_ADDR` onward and
/// leaves every other byte and the rest of the machine as they were.
pub proof fn law_load_copies_program(s: Chip8View, data: Seq<u8>)
    requires
        s.wf(),
        state::program_fits(data.len() as int),
    ensures
        ({
            let t = state::load_spec(s, data);
            &&& t == (Chip8View { ram: t.ram, ..s })
            &&& t.ram.len() == s.ram.len()
            &&& forall|k: int| 0 <= k < data.len() ==> #[trigger] t.ram[START_ADDR + k] == data[k]
            &&& forall|a: int|
                0 <= a < RAM_SIZE && !(START_ADDR <= a < START_ADDR + data.len())
                    ==> #[trigger] t.ram[a] == s.ram[a]
        }),
{
    let t = state::load_spec(s, data);
    assert forall|k: int| 0 <= k < data.len() implies #[trigger] t.ram[START_ADDR + k]
        == data[k] by {
        assert(START_ADDR <= START_ADDR + k < START_ADDR + data.len());
    }
}

/// A CPU cycle reads the two bytes at `pc` as one big-endian opcode and
/// executes it with `pc` already two bytes further on.
pub proof fn law_tick_fetches_then_executes(s: Chip8View, rnd: u8)
    requires
        s.wf(),
        state::fetch_ok(s),
    ensures
        state::opcode_at(s) == s.ram[s.pc as int] * 256 + s.ram[s.pc + 1],
        semantics::tick_spec(s, rnd) == semantics::execute_opcode_spec(
            Chip8View { pc: (s.pc + 2) as u16, ..s },
            state::opcode_at(s),
            rnd,
        ),
{
}

/// The opcode that encodes an instruction, from the CHIP-8 opcode table.
pub open spec fn opcode_of(ins: Instruction) -> int {
    match ins {
        Instruction::Nop => 0x0000,
        Instruction::SysCall { addr } => addr as int,
        Instruction::ClearScreen => 0x00E0,
        Instruction::Return => 0x00EE,
        Instruction::Jump { addr } => 0x1000 + addr,
        Instruction::Call { addr } => 0x2000 + addr,
        Instruction::SkipIfEqualByte { x, byte } => 0x3000 + 0x100 * x + byte,
        Instruction::SkipIfNotEqualByte { x, byte } => 0x4000 + 0x100 * x + byte,
        Instruction::SkipIfEqualReg { x, y } => 0x5000 + 0x100 * x + 0x10 * y,
        Instruction::LoadByte { x, byte } => 0x6000 + 0x100 * x + byte,
        Instruction::AddByte { x, byte } => 0x7000 + 0x100 * x + byte,
        Instruction::Move { x, y } => 0x8000 + 0x100 * x + 0x10 * y,
        Instruction::Or { x, y } => 0x8001 + 0x100 * x + 0x10 * y,
        Instruction::And { x, y } => 0x8002 + 0x100 * x + 0x10 * y,
        Instruction::Xor { x, y } => 0x8003 + 0x100 * x + 0x10 * y,
        Instruction::AddReg { x, y } => 0x8004 + 0x100 * x + 0x10 * y,
        Instruction::SubReg { x, y } => 0x8005 + 0x100 * x + 0x10 * y,
        Instruction::ShiftRight { x, y } => 0x8006 + 0x100 * x + 0x10 * y,
        Instruction::SubReversed { x, y } => 0x8007 + 0x100 * x + 0x10 * y,
        Instruction::ShiftLeft { x, y } => 0x800E + 0x100 * x + 0x10 * y,
        Instruction::SkipIfNotEqualReg { x, y } => 0x9000 + 0x100 * x + 0x10 * y,
        Instruction::SetIndex { addr } => 0xA000 + addr,
        Instruction::JumpOffset { addr } => 0xB000 + addr,
        Instruction::Random { x, byte } => 0xC000 + 0x100 * x + byte,
        Instruction::Draw { x, y, rows } => 0xD000 + 0x100 * x + 0x10 * y + rows,
        Instruction::SkipIfKey { x } => 0xE09E + 0x100 * x,
        Instruction::SkipIfNotKey { x } => 0xE0A1 + 0x100 * x,
        Instruction::LoadDelay { x } => 0xF007 + 0x100 * x,
        Instruction::WaitKey { x } => 0xF00A + 0x100 * x,
        Instruction::SetDelay { x } => 0xF015 + 0x100 * x,
        Instruction::SetSound { x } => 0xF018 + 0x100 * x,
        Instruction::AddIndex { x } => 0xF01E + 0x100 * x,
        Instruction::FontChar { x } => 0xF029 + 0x100 * x,
        Instruction::StoreBcd { x } => 0xF033 + 0x100 * x,
        Instruction::StoreRegs { x } => 0xF055 + 0x100 * x,
        Instruction::LoadRegs { x } => 0xF065 + 0x100 * x,
    }
}

/// Decoding agrees with the opcode table: every opcode that decodes is the
/// table's encoding of the instruction it decodes to.
pub proof fn law_decode_matches_table(op: u16)
    ensures
        instruction::decode_spec(op) matches Some(ins) ==> opcode_of(ins) == op,
{
    lemma_opcode_digits(op);
}

/// Every instruction with operands in range decodes back from its table
/// encoding (a machine-code call at 000, 0E0 or 0EE aside: those opcodes
/// are `0000`, `00E0` and `00EE`).
pub proof fn law_table_decodes(ins: Instruction)
    requires
        ins.wf(),
        !(ins matches Instruction::SysCall { addr } && (addr == 0 || addr == 0xE0 || addr
            == 0xEE)),
    ensures
        0 <= opcode_of(ins) <= u16::MAX,
        instruction::decode_spec(opcode_of(ins) as u16) == Some(ins),
{
    match ins {
        Instruction::Nop => lemma_digits_addr(0, 0),
        Instruction::SysCall { addr } => lemma_digits_addr(0, addr as int),
        Instruction::ClearScreen => lemma_digits(0, 0, 0xE, 0),
        Instruction::Return => lemma_digits(0, 0, 0xE, 0xE),
        Instruction::Jump { addr } => lemma_digits_addr(1, addr as int),
        Instruction::Call { addr } => lemma_digits_addr(2, addr as int),
        Instruction::SkipIfEqualByte { x, byte } => lemma_digits_byte(3, x as int, byte as int),
        Instruction::SkipIfNotEqualByte { x, byte } => lemma_digits_byte(4, x as int, byte as int),
        Instruction::SkipIfEqualReg { x, y } => lemma_digits(5, x as int, y as int, 0),
        Instruction::LoadByte { x, byte } => lemma_digits_byte(6, x as int, byte as int),
        Instruction::AddByte { x, byte } => lemma_digits_byte(7, x as int, byte as int),
        Instruction::Move { x, y } => lemma_digits(8, x as int, y as int, 0),
        Instruction::Or { x, y } => lemma_digits(8, x as int, y as int, 1),
        Instruction::And { x, y } => lemma_digits(8, x as int, y as int, 2),
        Instruction::Xor { x, y } => lemma_digits(8, x as int, y as int, 3),
        Instruction::AddReg { x, y } => lemma_digits(8, x as int, y as int, 4),
        Instruction::SubReg { x, y } => lemma_digits(8, x as int, y as int, 5),
        Instruction::ShiftRight { x, y } => lemma_digits(8, x as int, y as int, 6),
        Instruction::SubReversed { x, y } => lemma_digits(8, x as int, y as int, 7),
        Instruction::ShiftLeft { x, y } => lemma_digits(8, x as int, y as int, 0xE),
        Instruction::SkipIfNotEqualReg { x, y } => lemma_digits(9, x as int, y as int, 0),
        Instruction::SetIndex { addr } => lemma_digits_addr(0xA, addr as int),
        Instruction::JumpOffset { addr } => lemma_digits_addr(0xB, addr as int),
        Instruction::Random { x, byte } => lemma_digits_byte(0xC, x as int, byte as int),
        Instruction::Draw { x, y, rows } => lemma_digits(0xD, x as int, y as int, rows as int),
        Instruction::SkipIfKey { x } => lemma_digits_byte(0xE, x as int, 0x9E),
        Instruction::SkipIfNotKey { x } => lemma_digits_byte(0xE, x as int, 0xA1),
        Instruction::LoadDelay { x } => lemma_digits_byte(0xF, x as int, 0x07),
        Instruction::WaitKey { x } => lemma_digits_byte(0xF, x as int, 0x0A),
        Instruction::SetDelay { x } => lemma_digits_byte(0xF, x as int, 0x15),
        Instruction::SetSound { x } => lemma_digits_byte(0xF, x as int, 0x18),
        Instruction::AddIndex { x } => lemma_digits_byte(0xF, x as int, 0x1E),
        Instruction::FontChar { x } => lemma_digits_byte(0xF, x as int, 0x29),
        Instruction::StoreBcd { x } => lemma_digits_byte(0xF, x as int, 0x33),
        Instruction::StoreRegs { x } => lemma_digits_byte(0xF, x as int, 0x55),
        Instruction::LoadRegs { x } => lemma_digits_byte(0xF, x as int, 0x65),
    }
}

/// The hex digits of an opcode written as first digit `k` and twelve-bit
/// address `addr`.
proof fn lemma_digits_addr(k: int, addr: int)
    requires
        0 <= k < 16,
        0 <= addr < 0x1000,
    ensures
        ({
            let op = (0x1000 * k + addr) as u16;
            &&& op == 0x1000 * k + addr
            &&& instruction::op_kind(op) == k
            &&& instruction::op_addr(op) == addr
        }),
{
    let op = (0x1000 * k + addr) as u16;
    assert(op == 0x1000 * k + addr);
    lemma_opcode_digits(op);
}

/// The hex digits of an opcode written as first digit `k`, register `x`
/// and low byte `byte`.
proof fn lemma_digits_byte(k: int, x: int, byte: int)
    requires
        0 <= k < 16,
        0 <= x < 16,
        0 <= byte < 0x100,
    ensures
        ({
            let op = (0x1000 * k + 0x100 * x + byte) as u16;
            &&& op == 0x1000 * k + 0x100 * x + byte
            &&& instruction::op_kind(op) == k
            &&& instruction::op_x(op) == x
            &&& instruction::op_byte(op) == byte
        }),
{
    let op = (0x1000 * k + 0x100 * x + byte) as u16;
    assert(op == 0x1000 * k + 0x100 * x + byte);
    lemma_opcode_digits(op);
}

/// The hex digits of an opcode written as its four digits.
proof fn lemma_digits(k: int, x: int, y: int, n: int)
    requires
        0 <= k < 16,
        0 <= x < 16,
        0 <= y < 16,
        0 <= n < 16,
    ensures
        ({
            let op = (0x1000 * k + 0x100 * x + 0x10 * y + n) as u16;
            &&& op == 0x1000 * k + 0x100 * x + 0x10 * y + n
            &&& instruction::op_kind(op) == k
            &&& instruction::op_x(op) == x
            &&& instruction::op_y(op) == y
            &&& instruction::op_n(op) == n
            &&& instruction::op_byte(op) == 0x10 * y + n
        }),
{
    let op = (0x1000 * k + 0x100 * x + 0x10 * y + n) as u16;
    assert(op == 0x1000 * k + 0x100 * x + 0x10 * y + n);
    lemma_opcode_digits(op);
}

/// An opcode is its four hex digits, most significant first.
proof fn lemma_opcode_digits(op: u16)
    ensures
        op == 0x1000 * instruction::op_kind(op) + 0x100 * instruction::op_x(op) + 0x10
            * instruction::op_y(op) + instruction::op_n(op),
        instruction::op_kind(op) < 0x10,
        instruction::op_byte(op) == 0x10 * instruction::op_y(op) + instruction::op_n(op),
        instruction::op_addr(op) == 0x100 * instruction::op_x(op) + instruction::op_byte(op),
{
    assert(op == 0x1000 * (op / 0x1000) + 0x100 * ((op / 0x100) % 0x10) + 0x10 * ((op / 0x10)
        % 0x10) + op % 0x10 && op / 0x1000 < 0x10 && op % 0x100 == 0x10 * ((op / 0x10) % 0x10)
        + op % 0x10 && op % 0x1000 == 0x100 * ((op / 0x100) % 0x10) + op % 0x100)
        by (bit_vector);
}


} // verus!
