//! The CHIP-8 virtual machine and its operations.
use vstd::prelude::*;
use crate::instruction::Instruction;
use crate::machine::{
    FONTSET_SIZE, KEYS_NUMBER, RAM_SIZE, REGISTERS_NUMBER, SCREEN_HEIGHT, SCREEN_SIZE, SCREEN_WIDTH,
    STACK_SIZE, START_ADDR,
};
use crate::state::Chip8View;
use crate::frontend::TICKS_PER_FRAME;
use crate::instruction;
use crate::machine;
use crate::rng;
use crate::semantics;
use crate::sprite;
use crate::state;

verus! {

/// A CHIP-8 virtual machine: CPU state, RAM, stack, keypad, timers, and
/// the monochrome frame buffer.
pub struct Emulator {
    /// Program counter, points at the next opcode to fetch.
    pc: u16,
    /// Main memory. The first `FONTSET_SIZE` bytes hold the built-in font.
    ram: Vec<u8>,
    /// Monochrome frame buffer, `true` = pixel on. Indexed row-major.
    screen: Vec<bool>,
    /// General-purpose registers V0-VF. VF also serves as the flags
    /// register for carry/borrow/collision.
    v_registers: Vec<u8>,
    /// Index register, typically holds a memory address.
    i_register: u16,
    /// Stack pointer, indexes the next free slot in `stack`.
    sp: u16,
    /// Call stack used to store return addresses for subroutine calls.
    stack: Vec<u16>,
    /// State of the 16-key hex keypad, `true` = pressed.
    keys: Vec<bool>,
    /// Counts down at 60Hz; used for game timing.
    delay_timer: u8,
    /// Counts down at 60Hz; beeps while non-zero.
    sound_timer: u8,
}

impl View for Emulator {
    type V = Chip8View;

    closed spec fn view(&self) -> Chip8View {
        Chip8View {
            pc: self.pc,
            ram: self.ram@,
            screen: self.screen@,
            v: self.v_registers@,
            i: self.i_register,
            sp: self.sp,
            stack: self.stack@,
            keys: self.keys@,
            delay_timer: self.delay_timer,
            sound_timer: self.sound_timer,
        }
    }
}

impl Emulator {
    /// Every emulator has the shape of the machine: fixed sizes of memory,
    /// screen, registers, stack and keypad, and a stack pointer within the
    /// stack.
    #[verifier::type_invariant]
    spec fn inv_shape(&self) -> bool {
        self@.wf()
    }
}

/// Memory of a fresh machine: zeros, with the font copied to the bottom.
fn fresh_ram() -> (ram: Vec<u8>)
    ensures
        ram@ == state::initial_ram(),
{
    let mut ram: Vec<u8> = vec![0u8; RAM_SIZE];
    let font: Vec<u8> = machine::fontset();
    let mut k: usize = 0;
    while k < FONTSET_SIZE
        invariant
            0 <= k <= FONTSET_SIZE,
            font@ == machine::fontset_spec(),
            ram@.len() == RAM_SIZE,
            forall|a: int| 0 <= a < k ==> ram@[a] == machine::fontset_spec()[a],
            forall|a: int| k <= a < RAM_SIZE ==> ram@[a] == 0u8,
        decreases FONTSET_SIZE - k,
    {
        ram.set(k, font[k]);
        k = k + 1;
    }
    assert(ram@ =~= state::initial_ram());
    ram
}

impl Emulator {
    /// Creates a new emulator with a clean RAM/register state and the
    /// built-in fontset loaded at the start of memory.
    pub fn new() -> (emu: Self)
        ensures
            emu@ == state::initial_view(),
            emu@.wf(),
    {
        let emu = Emulator {
            pc: START_ADDR,
            ram: fresh_ram(),
            screen: vec![false; SCREEN_SIZE],
            v_registers: vec![0u8; REGISTERS_NUMBER],
            i_register: 0,
            sp: 0,
            stack: vec![0u16; STACK_SIZE],
            keys: vec![false; KEYS_NUMBER],
            delay_timer: 0,
            sound_timer: 0,
        };
        assert(emu@ =~= state::initial_view());
        emu
    }

    /// Decrements the delay and sound timers. Should be called at 60Hz,
    /// independently of `tick`.
    pub fn tick_timer(&mut self)
        ensures
            final(self)@ == state::tick_timer_spec(old(self)@),
            final(self)@.wf(),
    {
        proof {
            use_type_invariant(&*self);
        }
        if self.delay_timer > 0 {
            self.delay_timer = self.delay_timer - 1;
        }
        if self.sound_timer > 0 {
            self.sound_timer = self.sound_timer - 1;
        }
    }

    /// Resets the emulator to its initial state, as if freshly created.
    pub fn reset(&mut self)
        ensures
            final(self)@ == state::initial_view(),
            final(self)@.wf(),
    {
        proof {
            use_type_invariant(&*self);
        }
        self.pc = START_ADDR;
        self.ram = fresh_ram();
        self.screen = vec![false; SCREEN_SIZE];
        self.v_registers = vec![0u8; REGISTERS_NUMBER];
        self.i_register = 0;
        self.sp = 0;
        self.stack = vec![0u16; STACK_SIZE];
        self.keys = vec![false; KEYS_NUMBER];
        self.delay_timer = 0;
        self.sound_timer = 0;
        assert(self@ =~= state::initial_view());
    }

    /// The frame buffer, row-major, `true` = pixel on.
    pub fn get_display(&self) -> (display: &[bool])
        ensures
            self@.wf(),
            display@ == self@.screen,
            display@.len() == SCREEN_SIZE,
    {
        proof {
            use_type_invariant(&*self);
        }
        self.screen.as_slice()
    }

    /// Records key `idx` of the hex keypad as pressed or released.
    pub fn keypress(&mut self, idx: usize, pressed: bool)
        requires
            idx < KEYS_NUMBER,
        ensures
            final(self)@ == state::keypress_spec(old(self)@, idx as int, pressed),
            final(self)@.wf(),
    {
        proof {
            use_type_invariant(&*self);
        }
        self.keys[idx] = pressed;
    }

    /// Copies a program into memory at `START_ADDR`.
    pub fn load(&mut self, data: &[u8])
        requires
            state::program_fits(data@.len() as int),
        ensures
            final(self)@ == state::load_spec(old(self)@, data@),
            final(self)@.wf(),
    {
        proof {
            use_type_invariant(&*self);
        }
        let start: usize = START_ADDR as usize;
        let ghost s0 = self@;
        let mut k: usize = 0;
        while k < data.len()
            invariant
                0 <= k <= data@.len(),
                s0.wf(),
                state::program_fits(data@.len() as int),
                start == START_ADDR,
                self@ == (Chip8View { ram: self.ram@, ..s0 }),
                self.ram@.len() == RAM_SIZE,
                forall|a: int|
                    0 <= a < RAM_SIZE ==> #[trigger] self.ram@[a] == (if start <= a < start + k {
                        data@[a - start]
                    } else {
                        s0.ram[a]
                    }),
            decreases data@.len() - k,
        {
            self.ram[start + k] = data[k];
            k = k + 1;
        }
        assert(self@ =~= state::load_spec(s0, data@));
    }

    /// Pushes a return address onto the call stack.
    fn push(&mut self, val: u16)
        requires
            old(self)@.sp < STACK_SIZE,
        ensures
            final(self)@ == state::push_spec(old(self)@, val),
    {
        proof {
            use_type_invariant(&*self);
        }
        self.stack[self.sp as usize] = val;
        self.sp = self.sp + 1;
    }

    /// Pops and returns the most recent address from the call stack.
    fn pop(&mut self) -> (addr: u16)
        requires
            old(self)@.sp >= 1,
        ensures
            addr == state::stack_top(old(self)@),
            final(self)@ == state::pop_spec(old(self)@),
    {
        proof {
            use_type_invariant(&*self);
        }
        self.sp = self.sp - 1;
        self.stack[self.sp as usize]
    }

    /// Reads the 16-bit opcode at `pc` (big-endian) and advances `pc`
    /// by two bytes.
    fn fetch(&mut self) -> (op: u16)
        requires
            state::fetch_ok(old(self)@),
        ensures
            op == state::opcode_at(old(self)@),
            final(self)@ == state::after_fetch(old(self)@),
    {
        proof {
            use_type_invariant(&*self);
        }
        let op: u16 = self.opcode_at_pc();
        self.pc = self.pc + 2;
        op
    }

    /// The big-endian opcode at `pc`, without moving `pc`.
    fn opcode_at_pc(&self) -> (op: u16)
        requires
            state::fetch_ok(self@),
        ensures
            op == state::opcode_at(self@),
    {
        proof {
            use_type_invariant(&*self);
        }
        let high_byte: u16 = self.ram[self.pc as usize] as u16;
        let low_byte: u16 = self.ram[(self.pc + 1) as usize] as u16;
        let op: u16 = (high_byte << 8) | low_byte;
        assert(op == high_byte * 256 + low_byte) by (bit_vector)
            requires
                op == (high_byte << 8) | low_byte,
                high_byte < 256,
                low_byte < 256,
        ;
        op
    }

    /// Draws the `rows`-row sprite stored at I onto the screen at
    /// (V`x`, V`y`), XOR-ing it in with wrap-around; VF records whether a
    /// lit pixel was turned off.
    fn draw_sprite(&mut self, x: u8, y: u8, rows: u8)
        requires
            x < 16,
            y < 16,
            rows < 16,
            rows == 0 || old(self)@.i + rows <= RAM_SIZE,
        ensures
            final(self)@ == semantics::execute_spec(
                old(self)@,
                Instruction::Draw { x, y, rows },
                0,
            ),
    {
        proof {
            use_type_invariant(&*self);
        }
        let ghost s0 = self@;
        let x_col: u16 = self.v_registers[x as usize] as u16;
        let y_col: u16 = self.v_registers[y as usize] as u16;
        let row_n: u16 = rows as u16;
        let ghost x0: int = x_col as int;
        let ghost y0: int = y_col as int;
        let mut flipped: bool = false;
        let mut y_line: u16 = 0;
        while y_line < row_n
            invariant
                s0.wf(),
                0 <= y_line <= row_n,
                row_n == rows,
                rows < 16,
                rows == 0 || s0.i + rows <= RAM_SIZE,
                x_col == s0.v[x as int],
                y_col == s0.v[y as int],
                x0 == x_col,
                y0 == y_col,
                self@ == (Chip8View { screen: self.screen@, ..s0 }),
                self.screen@.len() == SCREEN_SIZE,
                forall|p: int|
                    0 <= p < SCREEN_SIZE ==> #[trigger] self.screen@[p] == (s0.screen[p]
                        != sprite::covered_before(s0, x0, y0, rows as int, p, y_line as int, 0)),
                flipped == sprite::collides_before(s0, x0, y0, rows as int, y_line as int, 0),
            decreases row_n - y_line,
        {
            let addr: u16 = self.i_register + y_line;
            let pixels: u8 = self.ram[addr as usize];
            let mut x_line: u16 = 0;
            while x_line < 8
                invariant
                    s0.wf(),
                    0 <= y_line < row_n,
                    0 <= x_line <= 8,
                    row_n == rows,
                    rows < 16,
                    x_col == s0.v[x as int],
                    y_col == s0.v[y as int],
                    x0 == x_col,
                    y0 == y_col,
                    pixels == s0.ram[s0.i + y_line],
                    self@ == (Chip8View { screen: self.screen@, ..s0 }),
                    self.screen@.len() == SCREEN_SIZE,
                    forall|p: int|
                        0 <= p < SCREEN_SIZE ==> #[trigger] self.screen@[p] == (s0.screen[p]
                            != sprite::covered_before(
                            s0,
                            x0,
                            y0,
                            rows as int,
                            p,
                            y_line as int,
                            x_line as int,
                        )),
                    flipped == sprite::collides_before(
                        s0,
                        x0,
                        y0,
                        rows as int,
                        y_line as int,
                        x_line as int,
                    ),
                decreases 8 - x_line,
            {
                let ghost yl: int = y_line as int;
                let ghost xl: int = x_line as int;
                let ghost cell: int = sprite::cell_pixel(x0, y0, yl, xl);
                proof {
                    sprite::lemma_cell_pixel(x0, y0, yl, xl);
                    assert forall|p: int| 0 <= p < SCREEN_SIZE implies
                        (#[trigger] sprite::covered_before(s0, x0, y0, rows as int, p, yl, xl + 1))
                        == (sprite::covered_before(s0, x0, y0, rows as int, p, yl, xl) || (p
                        == cell && semantics::sprite_covers(s0, x0, y0, rows as int, p))) by {
                        sprite::lemma_pixel_cell(x0, y0, p);
                    }
                    sprite::lemma_collides_step(s0, x0, y0, rows as int, yl, xl, cell);
                }
                if pixels & (0b1000_0000u8 >> (x_line as u8)) != 0 {
                    let px: usize = (x_line + x_col) as usize % SCREEN_WIDTH;
                    let py: usize = (y_line + y_col) as usize % SCREEN_HEIGHT;
                    let idx: usize = (SCREEN_WIDTH * py) + px;
                    assert(idx == cell);
                    assert(semantics::sprite_covers(s0, x0, y0, rows as int, cell));
                    assert(!sprite::covered_before(s0, x0, y0, rows as int, cell, yl, xl));
                    let lit: bool = self.screen[idx];
                    flipped = flipped || lit;
                    self.screen[idx] = !lit;
                } else {
                    assert(!semantics::sprite_covers(s0, x0, y0, rows as int, cell));
                }
                x_line = x_line + 1;
            }
            proof {
                sprite::lemma_collides_next_row(s0, x0, y0, rows as int, y_line as int);
            }
            y_line = y_line + 1;
        }
        proof {
            sprite::lemma_collides_done(s0, x0, y0, rows as int);
        }
        let flag: u8 = if flipped { 1 } else { 0 };
        self.v_registers[0xF] = flag;
        proof {
            let e = semantics::execute_spec(s0, Instruction::Draw { x, y, rows }, 0);
            assert(self.screen@ =~= e.screen);
            assert(flipped == semantics::draw_collides(s0, x0, y0, rows as int));
            assert(self@ =~= e);
        }
    }

    /// Stores the lowest-numbered pressed key in V`x`; when no key is
    /// pressed, moves `pc` back so that the waiting opcode runs again.
    fn wait_key(&mut self, x: u8)
        requires
            x < 16,
            !semantics::any_key_pressed(old(self)@.keys) ==> old(self)@.pc >= 2,
        ensures
            final(self)@ == semantics::execute_spec(old(self)@, Instruction::WaitKey { x }, 0),
    {
        proof {
            use_type_invariant(&*self);
        }
        let ghost s0 = self@;
        let mut k: usize = 0;
        while k < KEYS_NUMBER
            invariant_except_break
                0 <= k <= KEYS_NUMBER,
                self@ == s0,
                s0.wf(),
                forall|j: int| 0 <= j < k ==> !#[trigger] s0.keys[j],
            ensures
                self@ == s0,
                s0.wf(),
                k < KEYS_NUMBER ==> semantics::is_first_pressed(s0.keys, k as int),
                k == KEYS_NUMBER ==> forall|j: int| 0 <= j < KEYS_NUMBER ==> !#[trigger] s0.keys[j],
                k <= KEYS_NUMBER,
            decreases KEYS_NUMBER - k,
        {
            if self.keys[k] {
                break;
            }
            k = k + 1;
        }
        if k < KEYS_NUMBER {
            proof {
                lemma_first_pressed_unique(s0.keys, k as int);
            }
            self.v_registers[x as usize] = k as u8;
        } else {
            self.pc = self.pc - 2;
        }
        proof {
            assert(self@ =~= semantics::execute_spec(s0, Instruction::WaitKey { x }, 0));
        }
    }

    /// Runs one decoded instruction. `rnd` is the random byte that
    /// `Random` masks; every other instruction ignores it.
    pub fn execute_instruction(&mut self, ins: Instruction, rnd: u8)
        requires
            semantics::instruction_ok(old(self)@, ins),
        ensures
            final(self)@ == semantics::execute_spec(old(self)@, ins, rnd),
            final(self)@.wf(),
    {
        proof {
            use_type_invariant(&*self);
        }
        match ins {
            Instruction::Nop
            | Instruction::SysCall { .. }
            | Instruction::ClearScreen
            | Instruction::Return
            | Instruction::Jump { .. }
            | Instruction::Call { .. }
            | Instruction::SkipIfEqualByte { .. }
            | Instruction::SkipIfNotEqualByte { .. }
            | Instruction::SkipIfEqualReg { .. }
            | Instruction::SkipIfNotEqualReg { .. }
            | Instruction::SetIndex { .. }
            | Instruction::JumpOffset { .. }
            | Instruction::SkipIfKey { .. }
            | Instruction::SkipIfNotKey { .. } => self.execute_control(ins, rnd),
            Instruction::LoadByte { .. }
            | Instruction::AddByte { .. }
            | Instruction::Move { .. }
            | Instruction::Or { .. }
            | Instruction::And { .. }
            | Instruction::Xor { .. }
            | Instruction::AddReg { .. }
            | Instruction::SubReg { .. }
            | Instruction::ShiftRight { .. }
            | Instruction::SubReversed { .. }
            | Instruction::ShiftLeft { .. }
            | Instruction::Random { .. }
            | Instruction::LoadDelay { .. } => self.execute_arith(ins, rnd),
            _ => self.execute_io(ins, rnd),
        }
    }

    /// Runs a control-flow instruction: jumps, calls, returns and skips.
    fn execute_control(&mut self, ins: Instruction, rnd: u8)
        requires
            semantics::instruction_ok(old(self)@, ins),
            ins is Call || ins is ClearScreen || ins is Jump || ins is JumpOffset || ins is Nop
                || ins is SysCall
                || ins is Return || ins is SetIndex || ins is SkipIfEqualByte
                || ins is SkipIfEqualReg || ins is SkipIfKey || ins is SkipIfNotEqualByte
                || ins is SkipIfNotEqualReg || ins is SkipIfNotKey,
        ensures
            final(self)@ == semantics::execute_spec(old(self)@, ins, rnd),
            final(self)@.wf(),
    {
        proof {
            use_type_invariant(&*self);
        }
        let ghost s0 = self@;
        match ins {
            Instruction::Nop => {},
            Instruction::SysCall { .. } => {},
            Instruction::ClearScreen => {
                self.screen = vec![false; SCREEN_SIZE];
            },
            Instruction::Return => {
                let return_addr: u16 = self.pop();
                self.pc = return_addr;
            },
            Instruction::Jump { addr } => {
                self.pc = addr;
            },
            Instruction::Call { addr } => {
                let here: u16 = self.pc;
                self.push(here);
                self.pc = addr;
            },
            Instruction::SkipIfEqualByte { x, byte } => {
                if self.v_registers[x as usize] == byte {
                    self.pc = self.pc + 2;
                }
            },
            Instruction::SkipIfNotEqualByte { x, byte } => {
                if self.v_registers[x as usize] != byte {
                    self.pc = self.pc + 2;
                }
            },
            Instruction::SkipIfEqualReg { x, y } => {
                if self.v_registers[x as usize] == self.v_registers[y as usize] {
                    self.pc = self.pc + 2;
                }
            },
            Instruction::SkipIfNotEqualReg { x, y } => {
                if self.v_registers[x as usize] != self.v_registers[y as usize] {
                    self.pc = self.pc + 2;
                }
            },
            Instruction::SetIndex { addr } => {
                self.i_register = addr;
            },
            Instruction::JumpOffset { addr } => {
                self.pc = (self.v_registers[0] as u16) + addr;
            },
            Instruction::SkipIfKey { x } => {
                let vx: u8 = self.v_registers[x as usize];
                if self.keys[vx as usize] {
                    self.pc = self.pc + 2;
                }
            },
            Instruction::SkipIfNotKey { x } => {
                let vx: u8 = self.v_registers[x as usize];
                if !self.keys[vx as usize] {
                    self.pc = self.pc + 2;
                }
            },
            _ => {},
        }
        proof {
            assert(self@ =~= semantics::execute_spec(s0, ins, rnd));
        }
    }

    /// Runs an instruction that computes a register value.
    fn execute_arith(&mut self, ins: Instruction, rnd: u8)
        requires
            semantics::instruction_ok(old(self)@, ins),
            ins is AddByte || ins is AddReg || ins is And || ins is LoadByte || ins is LoadDelay
                || ins is Move || ins is Or || ins is Random || ins is ShiftLeft
                || ins is ShiftRight || ins is SubReg || ins is SubReversed || ins is Xor,
        ensures
            final(self)@ == semantics::execute_spec(old(self)@, ins, rnd),
            final(self)@.wf(),
    {
        proof {
            use_type_invariant(&*self);
        }
        let ghost s0 = self@;
        match ins {
            Instruction::LoadByte { x, byte } => {
                self.v_registers[x as usize] = byte;
            },
            Instruction::AddByte { x, byte } => {
                let vx: u8 = self.v_registers[x as usize];
                self.v_registers[x as usize] = vx.wrapping_add(byte);
            },
            Instruction::Move { x, y } => {
                let vy: u8 = self.v_registers[y as usize];
                self.v_registers[x as usize] = vy;
            },
            Instruction::Or { x, y } => {
                let vx: u8 = self.v_registers[x as usize];
                let vy: u8 = self.v_registers[y as usize];
                self.v_registers[x as usize] = vx | vy;
            },
            Instruction::And { x, y } => {
                let vx: u8 = self.v_registers[x as usize];
                let vy: u8 = self.v_registers[y as usize];
                self.v_registers[x as usize] = vx & vy;
            },
            Instruction::Xor { x, y } => {
                let vx: u8 = self.v_registers[x as usize];
                let vy: u8 = self.v_registers[y as usize];
                self.v_registers[x as usize] = vx ^ vy;
            },
            Instruction::AddReg { x, y } => {
                let vx: u8 = self.v_registers[x as usize];
                let vy: u8 = self.v_registers[y as usize];
                let carry: bool = (vx as u16) + (vy as u16) > 0xFF;
                let new_vf: u8 = if carry { 1 } else { 0 };
                self.v_registers[x as usize] = vx.wrapping_add(vy);
                self.v_registers[0xF] = new_vf;
            },
            Instruction::SubReg { x, y } => {
                let vx: u8 = self.v_registers[x as usize];
                let vy: u8 = self.v_registers[y as usize];
                let borrow: bool = vx < vy;
                let new_vf: u8 = if borrow { 0 } else { 1 };
                self.v_registers[x as usize] = vx.wrapping_sub(vy);
                self.v_registers[0xF] = new_vf;
            },
            Instruction::ShiftRight { x, y } => {
                let vx: u8 = self.v_registers[x as usize];
                let dropped_bit: u8 = vx & 1;
                let shifted: u8 = vx >> 1;
                assert(dropped_bit == vx % 2 && shifted == vx / 2) by (bit_vector)
                    requires
                        dropped_bit == vx & 1,
                        shifted == vx >> 1,
                ;
                self.v_registers[x as usize] = shifted;
                self.v_registers[0xF] = dropped_bit;
            },
            Instruction::SubReversed { x, y } => {
                let vx: u8 = self.v_registers[x as usize];
                let vy: u8 = self.v_registers[y as usize];
                let borrow: bool = vy < vx;
                let new_vf: u8 = if borrow { 0 } else { 1 };
                self.v_registers[x as usize] = vy.wrapping_sub(vx);
                self.v_registers[0xF] = new_vf;
            },
            Instruction::ShiftLeft { x, y } => {
                let vx: u8 = self.v_registers[x as usize];
                let dropped_bit: u8 = (vx >> 7) & 1;
                let shifted: u8 = vx << 1;
                assert(dropped_bit == vx / 128 && shifted == ((vx * 2) % 256) as u8)
                    by (bit_vector)
                    requires
                        dropped_bit == (vx >> 7) & 1,
                        shifted == vx << 1,
                ;
                self.v_registers[x as usize] = shifted;
                self.v_registers[0xF] = dropped_bit;
            },
            Instruction::Random { x, byte } => {
                self.v_registers[x as usize] = rnd & byte;
            },
            Instruction::LoadDelay { x } => {
                let delay: u8 = self.delay_timer;
                self.v_registers[x as usize] = delay;
            },
            _ => {},
        }
        proof {
            assert(self@ =~= semantics::execute_spec(s0, ins, rnd));
        }
    }

    /// Runs an instruction on the screen, the timers, the keypad or memory.
    fn execute_io(&mut self, ins: Instruction, rnd: u8)
        requires
            semantics::instruction_ok(old(self)@, ins),
            ins is AddIndex || ins is Draw || ins is FontChar || ins is LoadRegs || ins is SetDelay
                || ins is SetSound || ins is StoreBcd || ins is StoreRegs || ins is WaitKey,
        ensures
            final(self)@ == semantics::execute_spec(old(self)@, ins, rnd),
            final(self)@.wf(),
    {
        proof {
            use_type_invariant(&*self);
        }
        let ghost s0 = self@;
        match ins {
            Instruction::Draw { x, y, rows } => {
                self.draw_sprite(x, y, rows);
            },
            Instruction::WaitKey { x } => {
                self.wait_key(x);
            },
            Instruction::SetDelay { x } => {
                self.delay_timer = self.v_registers[x as usize];
            },
            Instruction::SetSound { x } => {
                self.sound_timer = self.v_registers[x as usize];
            },
            Instruction::AddIndex { x } => {
                let vx: u16 = self.v_registers[x as usize] as u16;
                self.i_register = self.i_register.wrapping_add(vx);
            },
            Instruction::FontChar { x } => {
                let vx: u16 = self.v_registers[x as usize] as u16;
                self.i_register = vx * 5;
            },
            Instruction::StoreBcd { x } => {
                let vx: u8 = self.v_registers[x as usize];
                let hundreds: u8 = vx / 100;
                let tens: u8 = (vx / 10) % 10;
                let ones: u8 = vx % 10;
                let i: usize = self.i_register as usize;
                self.ram[i] = hundreds;
                self.ram[i + 1] = tens;
                self.ram[i + 2] = ones;
            },
            Instruction::StoreRegs { x } => {
                self.store_registers(x);
            },
            Instruction::LoadRegs { x } => {
                self.load_registers(x);
            },
            _ => {},
        }
        proof {
            assert(self@ =~= semantics::execute_spec(s0, ins, rnd));
        }
    }

    /// Stores V0..=V`x` to memory starting at I.
    fn store_registers(&mut self, x: u8)
        requires
            x < 16,
            old(self)@.i + x < RAM_SIZE,
        ensures
            final(self)@ == semantics::execute_spec(old(self)@, Instruction::StoreRegs { x }, 0),
    {
        proof {
            use_type_invariant(&*self);
        }
        let ghost s0 = self@;
        let i: usize = self.i_register as usize;
        let last: usize = x as usize;
        let mut idx: usize = 0;
        while idx <= last
            invariant
                s0.wf(),
                0 <= idx <= last + 1,
                last == x,
                x < 16,
                i == s0.i,
                i + last < RAM_SIZE,
                self@ == (Chip8View { ram: self.ram@, ..s0 }),
                self.ram@.len() == RAM_SIZE,
                forall|a: int|
                    0 <= a < RAM_SIZE ==> #[trigger] self.ram@[a] == (if i <= a < i + idx {
                        s0.v[a - i]
                    } else {
                        s0.ram[a]
                    }),
            decreases last + 1 - idx,
        {
            let val: u8 = self.v_registers[idx];
            self.ram[i + idx] = val;
            idx = idx + 1;
        }
        proof {
            assert(self@ =~= semantics::execute_spec(s0, Instruction::StoreRegs { x }, 0));
        }
    }

    /// Fills V0..=V`x` from memory starting at I.
    fn load_registers(&mut self, x: u8)
        requires
            x < 16,
            old(self)@.i + x < RAM_SIZE,
        ensures
            final(self)@ == semantics::execute_spec(old(self)@, Instruction::LoadRegs { x }, 0),
    {
        proof {
            use_type_invariant(&*self);
        }
        let ghost s0 = self@;
        let i: usize = self.i_register as usize;
        let last: usize = x as usize;
        let mut idx: usize = 0;
        while idx <= last
            invariant
                s0.wf(),
                0 <= idx <= last + 1,
                last == x,
                x < 16,
                i == s0.i,
                i + last < RAM_SIZE,
                self@ == (Chip8View { v: self.v_registers@, ..s0 }),
                self.v_registers@.len() == REGISTERS_NUMBER,
                forall|k: int|
                    0 <= k < REGISTERS_NUMBER ==> #[trigger] self.v_registers@[k] == (if k < idx {
                        s0.ram[i + k]
                    } else {
                        s0.v[k]
                    }),
            decreases last + 1 - idx,
        {
            let val: u8 = self.ram[i + idx];
            self.v_registers[idx] = val;
            idx = idx + 1;
        }
        proof {
            assert(self@ =~= semantics::execute_spec(s0, Instruction::LoadRegs { x }, 0));
        }
    }
}

impl Emulator {
    /// Decodes and runs a single opcode.
    fn execute(&mut self, op: u16)
        requires
            semantics::opcode_ok(old(self)@, op),
        ensures
            final(self)@.wf(),
            exists|rnd: u8|
                final(self)@ == #[trigger] semantics::execute_opcode_spec(old(self)@, op, rnd),
            !semantics::uses_random(op) ==> final(self)@ == semantics::execute_opcode_spec(
                old(self)@,
                op,
                0,
            ),
    {
        proof {
            use_type_invariant(&*self);
        }
        let ghost s0 = self@;
        match instruction::decode(op) {
            Some(ins) => {
                let rnd: u8 = match ins {
                    Instruction::Random { .. } => rng::random_byte(),
                    _ => 0,
                };
                self.execute_instruction(ins, rnd);
                assert(self@ == semantics::execute_opcode_spec(s0, op, rnd));
            },
            None => {},
        }
    }

    /// Fetches and executes a single instruction (one CPU cycle).
    pub fn tick(&mut self)
        requires
            semantics::tick_ok(old(self)@),
        ensures
            final(self)@.wf(),
            exists|rnd: u8| final(self)@ == #[trigger] semantics::tick_spec(old(self)@, rnd),
            !semantics::uses_random(state::opcode_at(old(self)@)) ==> final(self)@
                == semantics::tick_spec(old(self)@, 0),
    {
        proof {
            use_type_invariant(&*self);
        }
        let ghost s0 = self@;
        let op: u16 = self.fetch();
        self.execute(op);
        proof {
            let rnd = choose|rnd: u8|
                self@ == #[trigger] semantics::execute_opcode_spec(state::after_fetch(s0), op, rnd);
            assert(self@ == semantics::tick_spec(s0, rnd));
        }
    }

    /// One CPU cycle in which `CXNN` combines its mask with `rnd` in place
    /// of a fresh random byte.
    pub fn tick_with_random(&mut self, rnd: u8)
        requires
            semantics::tick_ok(old(self)@),
        ensures
            final(self)@.wf(),
            final(self)@ == semantics::tick_spec(old(self)@, rnd),
    {
        proof {
            use_type_invariant(&*self);
        }
        let op: u16 = self.fetch();
        match instruction::decode(op) {
            Some(ins) => self.execute_instruction(ins, rnd),
            None => {},
        }
    }

    /// Whether some key is pressed.
    fn any_key_down(&self) -> (b: bool)
        ensures
            b == semantics::any_key_pressed(self@.keys),
    {
        proof {
            use_type_invariant(&*self);
        }
        let mut k: usize = 0;
        while k < KEYS_NUMBER
            invariant
                0 <= k <= KEYS_NUMBER,
                self@.wf(),
                forall|j: int| 0 <= j < k ==> !#[trigger] self@.keys[j],
            decreases KEYS_NUMBER - k,
        {
            if self.keys[k] {
                return true;
            }
            k = k + 1;
        }
        false
    }

    /// Whether running `ins` with the program counter at `pc` is defined.
    fn instruction_defined_at(&self, ins: Instruction, pc: u16) -> (b: bool)
        ensures
            b == semantics::instruction_ok(Chip8View { pc, ..self@ }, ins),
    {
        proof {
            use_type_invariant(&*self);
        }
        if !ins.operands_in_range() {
            return false;
        }
        let can_skip: bool = pc <= u16::MAX - 2;
        match ins {
            Instruction::Return => self.sp >= 1,
            Instruction::Call { .. } => (self.sp as usize) < STACK_SIZE,
            Instruction::SkipIfEqualByte { x, byte } => self.v_registers[x as usize] != byte
                || can_skip,
            Instruction::SkipIfNotEqualByte { x, byte } => self.v_registers[x as usize] == byte
                || can_skip,
            Instruction::SkipIfEqualReg { x, y } => self.v_registers[x as usize]
                != self.v_registers[y as usize] || can_skip,
            Instruction::SkipIfNotEqualReg { x, y } => self.v_registers[x as usize]
                == self.v_registers[y as usize] || can_skip,
            Instruction::Draw { rows, .. } => rows == 0 || (self.i_register as usize)
                + (rows as usize) <= RAM_SIZE,
            Instruction::SkipIfKey { x } => {
                let vx: u8 = self.v_registers[x as usize];
                vx < 16 && (!self.keys[vx as usize] || can_skip)
            },
            Instruction::SkipIfNotKey { x } => {
                let vx: u8 = self.v_registers[x as usize];
                vx < 16 && (self.keys[vx as usize] || can_skip)
            },
            Instruction::WaitKey { .. } => self.any_key_down() || pc >= 2,
            Instruction::StoreBcd { .. } => (self.i_register as usize) + 2 < RAM_SIZE,
            Instruction::StoreRegs { x } => (self.i_register as usize) + (x as usize) < RAM_SIZE,
            Instruction::LoadRegs { x } => (self.i_register as usize) + (x as usize) < RAM_SIZE,
            _ => true,
        }
    }

    /// Whether running `ins` on the current state is defined, i.e. whether
    /// `execute_instruction` may be called with it.
    pub fn instruction_defined(&self, ins: Instruction) -> (b: bool)
        ensures
            self@.wf(),
            b == semantics::instruction_ok(self@, ins),
    {
        proof {
            use_type_invariant(&*self);
        }
        let b: bool = self.instruction_defined_at(ins, self.pc);
        assert((Chip8View { pc: self@.pc, ..self@ }) =~= self@);
        b
    }

    /// Whether the next CPU cycle is defined, i.e. whether `tick` may be
    /// called: the opcode at `pc` lies in memory, is an instruction of the
    /// set, and that instruction is defined after `pc` moves past it.
    pub fn can_tick(&self) -> (b: bool)
        ensures
            self@.wf(),
            b == semantics::tick_ok(self@),
    {
        proof {
            use_type_invariant(&*self);
        }
        if self.pc as usize + 1 >= RAM_SIZE {
            return false;
        }
        let op: u16 = self.opcode_at_pc();
        match instruction::decode(op) {
            Some(ins) => self.instruction_defined_at(ins, self.pc + 2),
            None => false,
        }
    }
}

impl Emulator {
    /// Runs one display frame: `TICKS_PER_FRAME` CPU cycles, then one timer
    /// tick. Stops before the first cycle that is not defined and returns
    /// how many cycles ran; the timers tick only when all of them ran.
    pub fn run_frame(&mut self) -> (ran: usize)
        ensures
            final(self)@.wf(),
            ran <= TICKS_PER_FRAME,
            exists|rnds: Seq<u8>|
                {
                    &&& rnds.len() == ran
                    &&& semantics::ticks_ok(old(self)@, rnds)
                    &&& if ran == TICKS_PER_FRAME {
                        final(self)@ == state::tick_timer_spec(
                            #[trigger] semantics::run_ticks(old(self)@, rnds),
                        )
                    } else {
                        &&& final(self)@ == semantics::run_ticks(old(self)@, rnds)
                        &&& !semantics::tick_ok(final(self)@)
                    }
                },
    {
        proof {
            use_type_invariant(&*self);
        }
        let ghost s0 = self@;
        let ghost mut rnds: Seq<u8> = Seq::empty();
        let mut ran: usize = 0;
        while ran < TICKS_PER_FRAME
            invariant_except_break
                0 <= ran <= TICKS_PER_FRAME,
                self@.wf(),
                rnds.len() == ran,
                semantics::ticks_ok(s0, rnds),
                self@ == semantics::run_ticks(s0, rnds),
            ensures
                0 <= ran <= TICKS_PER_FRAME,
                self@.wf(),
                rnds.len() == ran,
                semantics::ticks_ok(s0, rnds),
                self@ == semantics::run_ticks(s0, rnds),
                ran < TICKS_PER_FRAME ==> !semantics::tick_ok(self@),
            decreases TICKS_PER_FRAME - ran,
        {
            if !self.can_tick() {
                break;
            }
            let ghost before = self@;
            self.tick();
            proof {
                let r = choose|r: u8| self@ == #[trigger] semantics::tick_spec(before, r);
                let prev = rnds;
                rnds = rnds.push(r);
                assert(rnds.drop_last() =~= prev);
            }
            ran = ran + 1;
        }
        if ran == TICKS_PER_FRAME {
            self.tick_timer();
        }
        ran
    }
}

impl Emulator {
    /// Makes the machine's shape known to the caller: sizes of memory,
    /// screen, registers, stack and keypad, and a stack pointer within the
    /// stack. It computes nothing.
    pub fn shape(&self)
        ensures
            self@.wf(),
    {
        proof {
            use_type_invariant(&*self);
        }
    }

    /// The program counter.
    pub fn pc(&self) -> (pc: u16)
        ensures
            self@.wf(),
            pc == self@.pc,
    {
        proof {
            use_type_invariant(&*self);
        }
        self.pc
    }

    /// The value of register V`x`.
    pub fn register(&self, x: usize) -> (val: u8)
        requires
            x < REGISTERS_NUMBER,
        ensures
            self@.wf(),
            val == self@.v[x as int],
    {
        proof {
            use_type_invariant(&*self);
        }
        self.v_registers[x]
    }

    /// The index register I.
    pub fn index_register(&self) -> (i: u16)
        ensures
            self@.wf(),
            i == self@.i,
    {
        proof {
            use_type_invariant(&*self);
        }
        self.i_register
    }

    /// The number of return addresses on the call stack.
    pub fn stack_depth(&self) -> (sp: u16)
        ensures
            self@.wf(),
            sp == self@.sp,
    {
        proof {
            use_type_invariant(&*self);
        }
        self.sp
    }

    /// The byte at memory address `addr`.
    pub fn memory(&self, addr: usize) -> (byte: u8)
        requires
            addr < RAM_SIZE,
        ensures
            self@.wf(),
            byte == self@.ram[addr as int],
    {
        proof {
            use_type_invariant(&*self);
        }
        self.ram[addr]
    }

    /// Whether key `idx` of the keypad is pressed.
    pub fn key_pressed(&self, idx: usize) -> (down: bool)
        requires
            idx < KEYS_NUMBER,
        ensures
            self@.wf(),
            down == self@.keys[idx as int],
    {
        proof {
            use_type_invariant(&*self);
        }
        self.keys[idx]
    }

    /// The delay timer.
    pub fn delay_timer(&self) -> (t: u8)
        ensures
            self@.wf(),
            t == self@.delay_timer,
    {
        proof {
            use_type_invariant(&*self);
        }
        self.delay_timer
    }

    /// The sound timer.
    pub fn sound_timer(&self) -> (t: u8)
        ensures
            self@.wf(),
            t == self@.sound_timer,
    {
        proof {
            use_type_invariant(&*self);
        }
        self.sound_timer
    }
}

/// The lowest-numbered pressed key is unique.
proof fn lemma_first_pressed_unique(keys: Seq<bool>, k: int)
    requires
        semantics::is_first_pressed(keys, k),
    ensures
        semantics::any_key_pressed(keys),
        semantics::first_pressed(keys) == k,
{
    let f = semantics::first_pressed(keys);
    assert(semantics::is_first_pressed(keys, f));
    if f < k {
        assert(!keys[f]);
    }
    if f > k {
        assert(!keys[k]);
    }
}

} // verus!
