//! CHIP-8 emulator core: machine state, instruction decoding and execution.

mod arith;
pub mod emulator;
pub mod frontend;
pub mod instruction;
pub mod laws;
pub mod machine;
mod rng;
pub mod semantics;
mod sprite;
pub mod state;

pub use emulator::Emulator;
pub use machine::{SCREEN_HEIGHT, SCREEN_WIDTH};
