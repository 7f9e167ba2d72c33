//! The abstract machine state that contracts speak of, and the
//! spec-level operations that act on it outside instruction execution.
use vstd::prelude::*;
use crate::machine;
use crate::machine::{
    FONTSET_SIZE, KEYS_NUMBER, RAM_SIZE, REGISTERS_NUMBER, SCREEN_SIZE, STACK_SIZE,
    START_ADDR,
};

verus! {

/// Mathematical model of the whole CHIP-8 machine.
#[verifier::ext_equal]
pub struct Chip8View {
    /// Program counter: address of the next opcode to fetch.
    pub pc: u16,
    /// Main memory, `RAM_SIZE` bytes.
    pub ram: Seq<u8>,
    /// Frame buffer, row-major, `true` = pixel on.
    pub screen: Seq<bool>,
    /// Registers V0..VF.
    pub v: Seq<u8>,
    /// Index register I.
    pub i: u16,
    /// Stack pointer: number of return addresses on the stack.
    pub sp: u16,
    /// Call stack slots.
    pub stack: Seq<u16>,
    /// Keypad state, `true` = pressed.
    pub keys: Seq<bool>,
    /// Delay timer.
    pub delay_timer: u8,
    /// Sound timer.
    pub sound_timer: u8,
}

impl Chip8View {
    /// The shape every machine state has: fixed sizes of memory, screen,
    /// registers, stack and keypad, and a stack pointer within the stack.
    pub open spec fn wf(self) -> bool {
        &&& self.ram.len() == RAM_SIZE
        &&& self.screen.len() == SCREEN_SIZE
        &&& self.v.len() == REGISTERS_NUMBER
        &&& self.stack.len() == STACK_SIZE
        &&& self.keys.len() == KEYS_NUMBER
        &&& self.sp <= STACK_SIZE
    }
}

/// Memory of a fresh machine: the font at the bottom, zeros elsewhere.
pub open spec fn initial_ram() -> Seq<u8> {
    Seq::new(
        RAM_SIZE as nat,
        |a: int| if a < FONTSET_SIZE { machine::fontset_spec()[a] } else { 0u8 },
    )
}

/// A blank screen.
pub open spec fn blank_screen() -> Seq<bool> {
    Seq::new(SCREEN_SIZE as nat, |p: int| false)
}

/// State of a freshly created (or reset) machine.
pub open spec fn initial_view() -> Chip8View {
    Chip8View {
        pc: START_ADDR,
        ram: initial_ram(),
        screen: blank_screen(),
        v: Seq::new(REGISTERS_NUMBER as nat, |r: int| 0u8),
        i: 0,
        sp: 0,
        stack: Seq::new(STACK_SIZE as nat, |k: int| 0u16),
        keys: Seq::new(KEYS_NUMBER as nat, |k: int| false),
        delay_timer: 0,
        sound_timer: 0,
    }
}

/// Whether a program of `len` bytes fits in memory at `START_ADDR`.
pub open spec fn program_fits(len: int) -> bool {
    START_ADDR + len <= RAM_SIZE
}

/// Memory after copying `data` to `START_ADDR`; all else unchanged.
pub open spec fn load_spec(s: Chip8View, data: Seq<u8>) -> Chip8View {
    Chip8View {
        ram: Seq::new(
            s.ram.len(),
            |a: int|
                if START_ADDR <= a < START_ADDR + data.len() {
                    data[a - START_ADDR]
                } else {
                    s.ram[a]
                },
        ),
        ..s
    }
}

/// A timer after one 60Hz tick: it counts down to zero and stays there.
pub open spec fn timer_step(t: u8) -> u8 {
    if t > 0 { (t - 1) as u8 } else { 0 }
}

/// Both timers after one 60Hz tick.
pub open spec fn tick_timer_spec(s: Chip8View) -> Chip8View {
    Chip8View {
        delay_timer: timer_step(s.delay_timer),
        sound_timer: timer_step(s.sound_timer),
        ..s
    }
}

/// Both timers after `k` ticks in a row.
pub open spec fn tick_timer_times(s: Chip8View, k: nat) -> Chip8View
    decreases k,
{
    if k == 0 {
        s
    } else {
        tick_timer_spec(tick_timer_times(s, (k - 1) as nat))
    }
}

/// The call stack after `val` is pushed on top.
pub open spec fn push_spec(s: Chip8View, val: u16) -> Chip8View {
    Chip8View { stack: s.stack.update(s.sp as int, val), sp: (s.sp + 1) as u16, ..s }
}

/// The address on top of the call stack.
pub open spec fn stack_top(s: Chip8View) -> u16 {
    s.stack[s.sp - 1]
}

/// The call stack after its top address is popped.
pub open spec fn pop_spec(s: Chip8View) -> Chip8View {
    Chip8View { sp: (s.sp - 1) as u16, ..s }
}

/// The keypad after key `idx` is pressed or released.
pub open spec fn keypress_spec(s: Chip8View, idx: int, pressed: bool) -> Chip8View {
    Chip8View { keys: s.keys.update(idx, pressed), ..s }
}

/// Whether the opcode at `pc` lies inside memory.
pub open spec fn fetch_ok(s: Chip8View) -> bool {
    s.pc + 1 < RAM_SIZE
}

/// The big-endian opcode at `pc`.
pub open spec fn opcode_at(s: Chip8View) -> u16 {
    (s.ram[s.pc as int] * 256 + s.ram[s.pc + 1]) as u16
}

/// The state after the opcode at `pc` has been fetched: `pc` moves past it.
pub open spec fn after_fetch(s: Chip8View) -> Chip8View {
    Chip8View { pc: (s.pc + 2) as u16, ..s }
}

} // verus!
