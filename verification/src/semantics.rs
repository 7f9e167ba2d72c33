//! What each instruction does to the machine state, and when it is defined.
use vstd::prelude::*;
use crate::instruction::Instruction;
use crate::machine::{RAM_SIZE, REGISTERS_NUMBER, SCREEN_HEIGHT, SCREEN_WIDTH, STACK_SIZE};
use crate::state::Chip8View;
use crate::instruction;
use crate::state;

verus! {

/// Index of the flag register VF.
pub open spec fn flag_reg() -> int {
    0xF
}

impl Instruction {
    /// The operand ranges that an opcode can encode: registers are hex
    /// digits, sprite heights are hex digits, addresses have twelve bits.
    pub open spec fn wf(self) -> bool {
        match self {
            Instruction::SysCall { addr } => addr < 0x1000,
            Instruction::Jump { addr } => addr < 0x1000,
            Instruction::Call { addr } => addr < 0x1000,
            Instruction::SetIndex { addr } => addr < 0x1000,
            Instruction::JumpOffset { addr } => addr < 0x1000,
            Instruction::SkipIfEqualByte { x, byte } => x < 16,
            Instruction::SkipIfNotEqualByte { x, byte } => x < 16,
            Instruction::LoadByte { x, byte } => x < 16,
            Instruction::AddByte { x, byte } => x < 16,
            Instruction::Random { x, byte } => x < 16,
            Instruction::SkipIfEqualReg { x, y } => x < 16 && y < 16,
            Instruction::SkipIfNotEqualReg { x, y } => x < 16 && y < 16,
            Instruction::Move { x, y } => x < 16 && y < 16,
            Instruction::Or { x, y } => x < 16 && y < 16,
            Instruction::And { x, y } => x < 16 && y < 16,
            Instruction::Xor { x, y } => x < 16 && y < 16,
            Instruction::AddReg { x, y } => x < 16 && y < 16,
            Instruction::SubReg { x, y } => x < 16 && y < 16,
            Instruction::ShiftRight { x, y } => x < 16 && y < 16,
            Instruction::SubReversed { x, y } => x < 16 && y < 16,
            Instruction::ShiftLeft { x, y } => x < 16 && y < 16,
            Instruction::Draw { x, y, rows } => x < 16 && y < 16 && rows < 16,
            Instruction::SkipIfKey { x } => x < 16,
            Instruction::SkipIfNotKey { x } => x < 16,
            Instruction::LoadDelay { x } => x < 16,
            Instruction::WaitKey { x } => x < 16,
            Instruction::SetDelay { x } => x < 16,
            Instruction::SetSound { x } => x < 16,
            Instruction::AddIndex { x } => x < 16,
            Instruction::FontChar { x } => x < 16,
            Instruction::StoreBcd { x } => x < 16,
            Instruction::StoreRegs { x } => x < 16,
            Instruction::LoadRegs { x } => x < 16,
            _ => true,
        }
    }
}

/// `s` with the next instruction skipped when `cond` holds.
pub open spec fn skip_if(s: Chip8View, cond: bool) -> Chip8View {
    if cond {
        Chip8View { pc: (s.pc + 2) as u16, ..s }
    } else {
        s
    }
}

/// Whether skipping when `cond` holds keeps `pc` within 16 bits.
pub open spec fn skip_ok(s: Chip8View, cond: bool) -> bool {
    cond ==> s.pc + 2 <= u16::MAX
}

/// `s` with register `x` set to `val`.
pub open spec fn set_reg(s: Chip8View, x: int, val: u8) -> Chip8View {
    Chip8View { v: s.v.update(x, val), ..s }
}

/// `s` with register `x` set to `val`, then VF set to `flag`.
pub open spec fn set_reg_flag(s: Chip8View, x: int, val: u8, flag: u8) -> Chip8View {
    Chip8View { v: s.v.update(x, val).update(flag_reg(), flag), ..s }
}

/// Whether column `col` (0 = leftmost) of a sprite row `byte` is set.
pub open spec fn sprite_bit(byte: u8, col: int) -> bool {
    byte & (0x80u8 >> (col as u8)) != 0
}

/// The sprite row that lands on the screen line of pixel `p` when the
/// sprite's top is at line `y0`, counted with vertical wrap-around.
pub open spec fn sprite_row_at(y0: int, p: int) -> int {
    (p / (SCREEN_WIDTH as int) - y0) % (SCREEN_HEIGHT as int)
}

/// The sprite column that lands on the screen column of pixel `p` when the
/// sprite's left edge is at column `x0`, counted with horizontal wrap-around.
pub open spec fn sprite_col_at(x0: int, p: int) -> int {
    (p % (SCREEN_WIDTH as int) - x0) % (SCREEN_WIDTH as int)
}

/// Whether a set bit of the `rows`-row sprite at memory `s.i`, drawn at
/// (`x0`, `y0`), lands on pixel `p`.
pub open spec fn sprite_covers(s: Chip8View, x0: int, y0: int, rows: int, p: int) -> bool {
    let r = sprite_row_at(y0, p);
    let c = sprite_col_at(x0, p);
    r < rows && c < 8 && sprite_bit(s.ram[s.i + r], c)
}

/// The screen after XOR-drawing the sprite: every covered pixel flips.
pub open spec fn drawn_screen(s: Chip8View, x0: int, y0: int, rows: int) -> Seq<bool> {
    Seq::new(s.screen.len(), |p: int| s.screen[p] != sprite_covers(s, x0, y0, rows, p))
}

/// Whether drawing the sprite turns off a pixel that was on.
pub open spec fn draw_collides(s: Chip8View, x0: int, y0: int, rows: int) -> bool {
    exists|p: int|
        0 <= p < s.screen.len() && #[trigger] sprite_covers(s, x0, y0, rows, p) && s.screen[p]
}

/// Whether key `k` is the lowest-numbered pressed key.
pub open spec fn is_first_pressed(keys: Seq<bool>, k: int) -> bool {
    &&& 0 <= k < keys.len()
    &&& keys[k]
    &&& forall|j: int| 0 <= j < k ==> !#[trigger] keys[j]
}

/// Whether some key is pressed.
pub open spec fn any_key_pressed(keys: Seq<bool>) -> bool {
    exists|k: int| 0 <= k < keys.len() && #[trigger] keys[k]
}

/// The lowest-numbered pressed key (meaningful when one is pressed).
pub open spec fn first_pressed(keys: Seq<bool>) -> int {
    choose|k: int| is_first_pressed(keys, k)
}

/// Whether executing `ins` on `s` is defined: every memory, stack, key and
/// register access stays in range and no 16-bit counter overflows.
pub open spec fn instruction_ok(s: Chip8View, ins: Instruction) -> bool {
    &&& ins.wf()
    &&& match ins {
        Instruction::Return => s.sp >= 1,
        Instruction::Call { addr } => s.sp < STACK_SIZE,
        Instruction::SkipIfEqualByte { x, byte } => skip_ok(s, s.v[x as int] == byte),
        Instruction::SkipIfNotEqualByte { x, byte } => skip_ok(s, s.v[x as int] != byte),
        Instruction::SkipIfEqualReg { x, y } => skip_ok(s, s.v[x as int] == s.v[y as int]),
        Instruction::SkipIfNotEqualReg { x, y } => skip_ok(s, s.v[x as int] != s.v[y as int]),
        Instruction::Draw { x, y, rows } => rows == 0 || s.i + rows <= RAM_SIZE,
        Instruction::SkipIfKey { x } => {
            s.v[x as int] < 16 && skip_ok(s, s.keys[s.v[x as int] as int])
        },
        Instruction::SkipIfNotKey { x } => {
            s.v[x as int] < 16 && skip_ok(s, !s.keys[s.v[x as int] as int])
        },
        Instruction::WaitKey { x } => !any_key_pressed(s.keys) ==> s.pc >= 2,
        Instruction::StoreBcd { x } => s.i + 2 < RAM_SIZE,
        Instruction::StoreRegs { x } => s.i + x < RAM_SIZE,
        Instruction::LoadRegs { x } => s.i + x < RAM_SIZE,
        _ => true,
    }
}

/// The state after executing `ins` on `s` (whose `pc` already points past
/// the opcode). `rnd` is the random byte that `Random` combines with its
/// mask; no other instruction reads it.
pub open spec fn execute_spec(s: Chip8View, ins: Instruction, rnd: u8) -> Chip8View {
    match ins {
        Instruction::Nop => s,
        Instruction::SysCall { addr } => s,
        Instruction::ClearScreen => Chip8View { screen: state::blank_screen(), ..s },
        Instruction::Return => Chip8View { pc: state::stack_top(s), ..state::pop_spec(s) },
        Instruction::Jump { addr } => Chip8View { pc: addr, ..s },
        Instruction::Call { addr } => Chip8View { pc: addr, ..state::push_spec(s, s.pc) },
        Instruction::SkipIfEqualByte { x, byte } => skip_if(s, s.v[x as int] == byte),
        Instruction::SkipIfNotEqualByte { x, byte } => skip_if(s, s.v[x as int] != byte),
        Instruction::SkipIfEqualReg { x, y } => skip_if(s, s.v[x as int] == s.v[y as int]),
        Instruction::LoadByte { x, byte } => set_reg(s, x as int, byte),
        Instruction::AddByte { x, byte } => set_reg(
            s,
            x as int,
            ((s.v[x as int] + byte) % 256) as u8,
        ),
        Instruction::Move { x, y } => set_reg(s, x as int, s.v[y as int]),
        Instruction::Or { x, y } => set_reg(s, x as int, s.v[x as int] | s.v[y as int]),
        Instruction::And { x, y } => set_reg(s, x as int, s.v[x as int] & s.v[y as int]),
        Instruction::Xor { x, y } => set_reg(s, x as int, s.v[x as int] ^ s.v[y as int]),
        Instruction::AddReg { x, y } => {
            let sum: int = s.v[x as int] + s.v[y as int];
            set_reg_flag(s, x as int, (sum % 256) as u8, if sum > 255 { 1 } else { 0 })
        },
        Instruction::SubReg { x, y } => {
            let a: int = s.v[x as int] as int;
            let b: int = s.v[y as int] as int;
            set_reg_flag(s, x as int, ((a - b) % 256) as u8, if a >= b { 1 } else { 0 })
        },
        Instruction::ShiftRight { x, y } => {
            let a: int = s.v[x as int] as int;
            set_reg_flag(s, x as int, (a / 2) as u8, (a % 2) as u8)
        },
        Instruction::SubReversed { x, y } => {
            let a: int = s.v[x as int] as int;
            let b: int = s.v[y as int] as int;
            set_reg_flag(s, x as int, ((b - a) % 256) as u8, if b >= a { 1 } else { 0 })
        },
        Instruction::ShiftLeft { x, y } => {
            let a: int = s.v[x as int] as int;
            set_reg_flag(s, x as int, ((a * 2) % 256) as u8, (a / 128) as u8)
        },
        Instruction::SkipIfNotEqualReg { x, y } => skip_if(s, s.v[x as int] != s.v[y as int]),
        Instruction::SetIndex { addr } => Chip8View { i: addr, ..s },
        Instruction::JumpOffset { addr } => Chip8View { pc: (s.v[0] + addr) as u16, ..s },
        Instruction::Random { x, byte } => set_reg(s, x as int, rnd & byte),
        Instruction::Draw { x, y, rows } => {
            let x0: int = s.v[x as int] as int;
            let y0: int = s.v[y as int] as int;
            Chip8View {
                screen: drawn_screen(s, x0, y0, rows as int),
                v: s.v.update(
                    flag_reg(),
                    if draw_collides(s, x0, y0, rows as int) { 1u8 } else { 0u8 },
                ),
                ..s
            }
        },
        Instruction::SkipIfKey { x } => skip_if(s, s.keys[s.v[x as int] as int]),
        Instruction::SkipIfNotKey { x } => skip_if(s, !s.keys[s.v[x as int] as int]),
        Instruction::LoadDelay { x } => set_reg(s, x as int, s.delay_timer),
        Instruction::WaitKey { x } => {
            if any_key_pressed(s.keys) {
                set_reg(s, x as int, first_pressed(s.keys) as u8)
            } else {
                Chip8View { pc: (s.pc - 2) as u16, ..s }
            }
        },
        Instruction::SetDelay { x } => Chip8View { delay_timer: s.v[x as int], ..s },
        Instruction::SetSound { x } => Chip8View { sound_timer: s.v[x as int], ..s },
        Instruction::AddIndex { x } => Chip8View {
            i: ((s.i + s.v[x as int]) % 0x10000) as u16,
            ..s
        },
        Instruction::FontChar { x } => Chip8View { i: (s.v[x as int] * 5) as u16, ..s },
        Instruction::StoreBcd { x } => {
            let val: int = s.v[x as int] as int;
            Chip8View {
                ram: s.ram.update(s.i as int, (val / 100) as u8).update(
                    s.i + 1,
                    ((val / 10) % 10) as u8,
                ).update(s.i + 2, (val % 10) as u8),
                ..s
            }
        },
        Instruction::StoreRegs { x } => Chip8View {
            ram: Seq::new(
                s.ram.len(),
                |a: int| if s.i <= a <= s.i + x { s.v[a - s.i] } else { s.ram[a] },
            ),
            ..s
        },
        Instruction::LoadRegs { x } => Chip8View {
            v: Seq::new(
                REGISTERS_NUMBER as nat,
                |k: int| if k <= x { s.ram[s.i + k] } else { s.v[k] },
            ),
            ..s
        },
    }
}

/// Whether executing the opcode `op` on `s` is defined: it encodes an
/// instruction of the set, and that instruction is defined on `s`.
pub open spec fn opcode_ok(s: Chip8View, op: u16) -> bool {
    &&& instruction::decode_spec(op) is Some
    &&& instruction_ok(s, instruction::decode_spec(op)->0)
}

/// The state after executing the opcode `op` on `s`.
pub open spec fn execute_opcode_spec(s: Chip8View, op: u16, rnd: u8) -> Chip8View {
    execute_spec(s, instruction::decode_spec(op)->0, rnd)
}

/// Whether one CPU cycle is defined on `s`: the opcode at `pc` lies in
/// memory and executing it (after `pc` moves past it) is defined.
pub open spec fn tick_ok(s: Chip8View) -> bool {
    &&& state::fetch_ok(s)
    &&& opcode_ok(state::after_fetch(s), state::opcode_at(s))
}

/// The state after one CPU cycle: fetch the opcode at `pc`, move `pc`
/// past it, execute it.
pub open spec fn tick_spec(s: Chip8View, rnd: u8) -> Chip8View {
    execute_opcode_spec(state::after_fetch(s), state::opcode_at(s), rnd)
}

/// Whether the opcode reads the random byte (`CXNN`).
pub open spec fn uses_random(op: u16) -> bool {
    instruction::decode_spec(op) matches Some(Instruction::Random { .. })
}

/// The state after one CPU cycle per byte of `rnds`, the k-th cycle
/// reading the k-th byte as its random byte.
pub open spec fn run_ticks(s: Chip8View, rnds: Seq<u8>) -> Chip8View
    decreases rnds.len(),
{
    if rnds.len() == 0 {
        s
    } else {
        tick_spec(run_ticks(s, rnds.drop_last()), rnds.last())
    }
}

/// Whether each of those cycles is defined on the state it starts from.
pub open spec fn ticks_ok(s: Chip8View, rnds: Seq<u8>) -> bool
    decreases rnds.len(),
{
    rnds.len() == 0 || (ticks_ok(s, rnds.drop_last()) && tick_ok(run_ticks(s, rnds.drop_last())))
}

impl Instruction {
    /// Whether the operands lie in the ranges an opcode can encode.
    pub fn operands_in_range(&self) -> (b: bool)
        ensures
            b == self.wf(),
    {
        match *self {
            Instruction::SysCall { addr } => addr < 0x1000,
            Instruction::Jump { addr } => addr < 0x1000,
            Instruction::Call { addr } => addr < 0x1000,
            Instruction::SetIndex { addr } => addr < 0x1000,
            Instruction::JumpOffset { addr } => addr < 0x1000,
            Instruction::SkipIfEqualByte { x, byte } => x < 16,
            Instruction::SkipIfNotEqualByte { x, byte } => x < 16,
            Instruction::LoadByte { x, byte } => x < 16,
            Instruction::AddByte { x, byte } => x < 16,
            Instruction::Random { x, byte } => x < 16,
            Instruction::SkipIfEqualReg { x, y } => x < 16 && y < 16,
            Instruction::SkipIfNotEqualReg { x, y } => x < 16 && y < 16,
            Instruction::Move { x, y } => x < 16 && y < 16,
            Instruction::Or { x, y } => x < 16 && y < 16,
            Instruction::And { x, y } => x < 16 && y < 16,
            Instruction::Xor { x, y } => x < 16 && y < 16,
            Instruction::AddReg { x, y } => x < 16 && y < 16,
            Instruction::SubReg { x, y } => x < 16 && y < 16,
            Instruction::ShiftRight { x, y } => x < 16 && y < 16,
            Instruction::SubReversed { x, y } => x < 16 && y < 16,
            Instruction::ShiftLeft { x, y } => x < 16 && y < 16,
            Instruction::Draw { x, y, rows } => x < 16 && y < 16 && rows < 16,
            Instruction::SkipIfKey { x } => x < 16,
            Instruction::SkipIfNotKey { x } => x < 16,
            Instruction::LoadDelay { x } => x < 16,
            Instruction::WaitKey { x } => x < 16,
            Instruction::SetDelay { x } => x < 16,
            Instruction::SetSound { x } => x < 16,
            Instruction::AddIndex { x } => x < 16,
            Instruction::FontChar { x } => x < 16,
            Instruction::StoreBcd { x } => x < 16,
            Instruction::StoreRegs { x } => x < 16,
            Instruction::LoadRegs { x } => x < 16,
            _ => true,
        }
    }
}

/// Every decoded opcode has its operands in range.
pub proof fn lemma_decode_wf(op: u16)
    ensures
        instruction::decode_spec(op) matches Some(ins) ==> ins.wf(),
{
}

} // verus!
