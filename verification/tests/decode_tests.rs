use chip8_core::instruction::{decode, Instruction};
use chip8_core::Emulator;

#[test]
fn decodes_every_group() {
    assert_eq!(decode(0x0000), Some(Instruction::Nop));
    assert_eq!(decode(0x00E0), Some(Instruction::ClearScreen));
    assert_eq!(decode(0x00EE), Some(Instruction::Return));
    assert_eq!(decode(0x0123), Some(Instruction::SysCall { addr: 0x123 }));
    assert_eq!(decode(0x0FFF), Some(Instruction::SysCall { addr: 0xFFF }));
    assert_eq!(decode(0x00E1), Some(Instruction::SysCall { addr: 0x0E1 }));
    assert_eq!(decode(0x1ABC), Some(Instruction::Jump { addr: 0xABC }));
    assert_eq!(decode(0x2ABC), Some(Instruction::Call { addr: 0xABC }));
    assert_eq!(decode(0x3A12), Some(Instruction::SkipIfEqualByte { x: 0xA, byte: 0x12 }));
    assert_eq!(decode(0x4A12), Some(Instruction::SkipIfNotEqualByte { x: 0xA, byte: 0x12 }));
    assert_eq!(decode(0x5AB0), Some(Instruction::SkipIfEqualReg { x: 0xA, y: 0xB }));
    assert_eq!(decode(0x5AB1), None);
    assert_eq!(decode(0x6A12), Some(Instruction::LoadByte { x: 0xA, byte: 0x12 }));
    assert_eq!(decode(0x7A12), Some(Instruction::AddByte { x: 0xA, byte: 0x12 }));
    assert_eq!(decode(0x8AB0), Some(Instruction::Move { x: 0xA, y: 0xB }));
    assert_eq!(decode(0x8AB1), Some(Instruction::Or { x: 0xA, y: 0xB }));
    assert_eq!(decode(0x8AB2), Some(Instruction::And { x: 0xA, y: 0xB }));
    assert_eq!(decode(0x8AB3), Some(Instruction::Xor { x: 0xA, y: 0xB }));
    assert_eq!(decode(0x8AB4), Some(Instruction::AddReg { x: 0xA, y: 0xB }));
    assert_eq!(decode(0x8AB5), Some(Instruction::SubReg { x: 0xA, y: 0xB }));
    assert_eq!(decode(0x8AB6), Some(Instruction::ShiftRight { x: 0xA, y: 0xB }));
    assert_eq!(decode(0x8AB7), Some(Instruction::SubReversed { x: 0xA, y: 0xB }));
    assert_eq!(decode(0x8ABE), Some(Instruction::ShiftLeft { x: 0xA, y: 0xB }));
    assert_eq!(decode(0x8AB8), None);
    assert_eq!(decode(0x9AB0), Some(Instruction::SkipIfNotEqualReg { x: 0xA, y: 0xB }));
    assert_eq!(decode(0x9AB1), None);
    assert_eq!(decode(0xA123), Some(Instruction::SetIndex { addr: 0x123 }));
    assert_eq!(decode(0xB123), Some(Instruction::JumpOffset { addr: 0x123 }));
    assert_eq!(decode(0xC3F0), Some(Instruction::Random { x: 3, byte: 0xF0 }));
    assert_eq!(decode(0xD12F), Some(Instruction::Draw { x: 1, y: 2, rows: 0xF }));
    assert_eq!(decode(0xE49E), Some(Instruction::SkipIfKey { x: 4 }));
    assert_eq!(decode(0xE4A1), Some(Instruction::SkipIfNotKey { x: 4 }));
    assert_eq!(decode(0xE4A2), None);
    assert_eq!(decode(0xF407), Some(Instruction::LoadDelay { x: 4 }));
    assert_eq!(decode(0xF40A), Some(Instruction::WaitKey { x: 4 }));
    assert_eq!(decode(0xF415), Some(Instruction::SetDelay { x: 4 }));
    assert_eq!(decode(0xF418), Some(Instruction::SetSound { x: 4 }));
    assert_eq!(decode(0xF41E), Some(Instruction::AddIndex { x: 4 }));
    assert_eq!(decode(0xF429), Some(Instruction::FontChar { x: 4 }));
    assert_eq!(decode(0xF433), Some(Instruction::StoreBcd { x: 4 }));
    assert_eq!(decode(0xF455), Some(Instruction::StoreRegs { x: 4 }));
    assert_eq!(decode(0xF465), Some(Instruction::LoadRegs { x: 4 }));
    assert_eq!(decode(0xF466), None);
}

#[test]
fn operand_ranges() {
    assert!(Instruction::Jump { addr: 0xFFF }.operands_in_range());
    assert!(!Instruction::Jump { addr: 0x1000 }.operands_in_range());
    assert!(!Instruction::Move { x: 16, y: 0 }.operands_in_range());
    assert!(!Instruction::Draw { x: 0, y: 0, rows: 16 }.operands_in_range());
    assert!(Instruction::ClearScreen.operands_in_range());
}

#[test]
fn execute_instruction_directly() {
    let mut emu = Emulator::new();
    let ins = Instruction::LoadByte { x: 2, byte: 0x42 };
    assert!(emu.instruction_defined(ins));
    emu.execute_instruction(ins, 0);
    assert_eq!(emu.register(2), 0x42);
    assert_eq!(emu.pc(), 0x200);
    emu.execute_instruction(Instruction::Random { x: 5, byte: 0x3C }, 0xFF);
    assert_eq!(emu.register(5), 0x3C);
    assert!(!emu.instruction_defined(Instruction::Return));
    assert!(!emu.instruction_defined(Instruction::LoadByte { x: 16, byte: 0 }));
}
