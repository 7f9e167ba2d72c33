//! The CHIP-8 instruction set and the decoding of 16-bit opcodes.
use vstd::prelude::*;

verus! {

/// One decoded CHIP-8 instruction. `x` and `y` name registers (0..=15),
/// `addr` is a 12-bit address, `byte` an 8-bit immediate, `rows` a 4-bit
/// sprite height.
#[derive(Clone, Copy, Debug, PartialEq, Eq, Structural)]
pub enum Instruction {
    /// `0000`: do nothing.
    Nop,
    /// `0NNN` (other than `0000`, `00E0`, `00EE`): call the machine-code
    /// routine at NNN; this machine runs no native code, so it does nothing.
    SysCall { addr: u16 },
    /// `00E0`: clear the screen.
    ClearScreen,
    /// `00EE`: return from a subroutine.
    Return,
    /// `1NNN`: jump to NNN.
    Jump { addr: u16 },
    /// `2NNN`: call the subroutine at NNN.
    Call { addr: u16 },
    /// `3XNN`: skip the next instruction if VX == NN.
    SkipIfEqualByte { x: u8, byte: u8 },
    /// `4XNN`: skip the next instruction if VX != NN.
    SkipIfNotEqualByte { x: u8, byte: u8 },
    /// `5XY0`: skip the next instruction if VX == VY.
    SkipIfEqualReg { x: u8, y: u8 },
    /// `6XNN`: VX = NN.
    LoadByte { x: u8, byte: u8 },
    /// `7XNN`: VX += NN, wrapping, flags untouched.
    AddByte { x: u8, byte: u8 },
    /// `8XY0`: VX = VY.
    Move { x: u8, y: u8 },
    /// `8XY1`: VX |= VY.
    Or { x: u8, y: u8 },
    /// `8XY2`: VX &= VY.
    And { x: u8, y: u8 },
    /// `8XY3`: VX ^= VY.
    Xor { x: u8, y: u8 },
    /// `8XY4`: VX += VY, VF = carry.
    AddReg { x: u8, y: u8 },
    /// `8XY5`: VX -= VY, VF = not borrow.
    SubReg { x: u8, y: u8 },
    /// `8XY6`: VX >>= 1, VF = the bit shifted out.
    ShiftRight { x: u8, y: u8 },
    /// `8XY7`: VX = VY - VX, VF = not borrow.
    SubReversed { x: u8, y: u8 },
    /// `8XYE`: VX <<= 1, VF = the bit shifted out.
    ShiftLeft { x: u8, y: u8 },
    /// `9XY0`: skip the next instruction if VX != VY.
    SkipIfNotEqualReg { x: u8, y: u8 },
    /// `ANNN`: I = NNN.
    SetIndex { addr: u16 },
    /// `BNNN`: jump to V0 + NNN.
    JumpOffset { addr: u16 },
    /// `CXNN`: VX = random byte & NN.
    Random { x: u8, byte: u8 },
    /// `DXYN`: draw the N-row sprite at I on (VX, VY), VF = collision.
    Draw { x: u8, y: u8, rows: u8 },
    /// `EX9E`: skip the next instruction if key VX is pressed.
    SkipIfKey { x: u8 },
    /// `EXA1`: skip the next instruction if key VX is not pressed.
    SkipIfNotKey { x: u8 },
    /// `FX07`: VX = delay timer.
    LoadDelay { x: u8 },
    /// `FX0A`: wait for a key press and store its number in VX.
    WaitKey { x: u8 },
    /// `FX15`: delay timer = VX.
    SetDelay { x: u8 },
    /// `FX18`: sound timer = VX.
    SetSound { x: u8 },
    /// `FX1E`: I += VX, wrapping.
    AddIndex { x: u8 },
    /// `FX29`: I = address of the font sprite for digit VX.
    FontChar { x: u8 },
    /// `FX33`: store the BCD digits of VX at I, I+1, I+2.
    StoreBcd { x: u8 },
    /// `FX55`: store V0..=VX at I onward.
    StoreRegs { x: u8 },
    /// `FX65`: load V0..=VX from I onward.
    LoadRegs { x: u8 },
}

/// First (most significant) hex digit of an opcode.
pub open spec fn op_kind(op: u16) -> u16 {
    op / 0x1000
}

/// Second hex digit of an opcode: the X register.
pub open spec fn op_x(op: u16) -> u8 {
    ((op / 0x100) % 0x10) as u8
}

/// Third hex digit of an opcode: the Y register.
pub open spec fn op_y(op: u16) -> u8 {
    ((op / 0x10) % 0x10) as u8
}

/// Last hex digit of an opcode.
pub open spec fn op_n(op: u16) -> u8 {
    (op % 0x10) as u8
}

/// Low byte of an opcode.
pub open spec fn op_byte(op: u16) -> u8 {
    (op % 0x100) as u8
}

/// Low twelve bits of an opcode.
pub open spec fn op_addr(op: u16) -> u16 {
    (op % 0x1000) as u16
}

/// The instruction an opcode encodes, or `None` for an opcode outside the
/// instruction set.
pub open spec fn decode_spec(op: u16) -> Option<Instruction> {
    let kind = op_kind(op);
    let x = op_x(op);
    let y = op_y(op);
    let n = op_n(op);
    let byte = op_byte(op);
    let addr = op_addr(op);
    if kind == 0x0 {
        if op == 0x0000 {
            Some(Instruction::Nop)
        } else if op == 0x00E0 {
            Some(Instruction::ClearScreen)
        } else if op == 0x00EE {
            Some(Instruction::Return)
        } else {
            Some(Instruction::SysCall { addr })
        }
    } else if kind == 0x1 {
        Some(Instruction::Jump { addr })
    } else if kind == 0x2 {
        Some(Instruction::Call { addr })
    } else if kind == 0x3 {
        Some(Instruction::SkipIfEqualByte { x, byte })
    } else if kind == 0x4 {
        Some(Instruction::SkipIfNotEqualByte { x, byte })
    } else if kind == 0x5 {
        if n == 0 { Some(Instruction::SkipIfEqualReg { x, y }) } else { None }
    } else if kind == 0x6 {
        Some(Instruction::LoadByte { x, byte })
    } else if kind == 0x7 {
        Some(Instruction::AddByte { x, byte })
    } else if kind == 0x8 {
        if n == 0x0 {
            Some(Instruction::Move { x, y })
        } else if n == 0x1 {
            Some(Instruction::Or { x, y })
        } else if n == 0x2 {
            Some(Instruction::And { x, y })
        } else if n == 0x3 {
            Some(Instruction::Xor { x, y })
        } else if n == 0x4 {
            Some(Instruction::AddReg { x, y })
        } else if n == 0x5 {
            Some(Instruction::SubReg { x, y })
        } else if n == 0x6 {
            Some(Instruction::ShiftRight { x, y })
        } else if n == 0x7 {
            Some(Instruction::SubReversed { x, y })
        } else if n == 0xE {
            Some(Instruction::ShiftLeft { x, y })
        } else {
            None
        }
    } else if kind == 0x9 {
        if n == 0 { Some(Instruction::SkipIfNotEqualReg { x, y }) } else { None }
    } else if kind == 0xA {
        Some(Instruction::SetIndex { addr })
    } else if kind == 0xB {
        Some(Instruction::JumpOffset { addr })
    } else if kind == 0xC {
        Some(Instruction::Random { x, byte })
    } else if kind == 0xD {
        Some(Instruction::Draw { x, y, rows: n })
    } else if kind == 0xE {
        if byte == 0x9E {
            Some(Instruction::SkipIfKey { x })
        } else if byte == 0xA1 {
            Some(Instruction::SkipIfNotKey { x })
        } else {
            None
        }
    } else {
        if byte == 0x07 {
            Some(Instruction::LoadDelay { x })
        } else if byte == 0x0A {
            Some(Instruction::WaitKey { x })
        } else if byte == 0x15 {
            Some(Instruction::SetDelay { x })
        } else if byte == 0x18 {
            Some(Instruction::SetSound { x })
        } else if byte == 0x1E {
            Some(Instruction::AddIndex { x })
        } else if byte == 0x29 {
            Some(Instruction::FontChar { x })
        } else if byte == 0x33 {
            Some(Instruction::StoreBcd { x })
        } else if byte == 0x55 {
            Some(Instruction::StoreRegs { x })
        } else if byte == 0x65 {
            Some(Instruction::LoadRegs { x })
        } else {
            None
        }
    }
}

/// Splits an opcode into its four hex digits, most significant first.
fn digits(op: u16) -> (d: (u16, u16, u16, u16))
    ensures
        d.0 == op_kind(op),
        d.1 == op_x(op),
        d.2 == op_y(op),
        d.3 == op_n(op),
{
    let digit1: u16 = (op & 0xF000) >> 12;
    let digit2: u16 = (op & 0x0F00) >> 8;
    let digit3: u16 = (op & 0x00F0) >> 4;
    let digit4: u16 = op & 0x000F;
    assert(digit1 == op / 0x1000) by (bit_vector)
        requires
            digit1 == (op & 0xF000) >> 12,
    ;
    assert(digit2 == (op / 0x100) % 0x10) by (bit_vector)
        requires
            digit2 == (op & 0x0F00) >> 8,
    ;
    assert(digit3 == (op / 0x10) % 0x10) by (bit_vector)
        requires
            digit3 == (op & 0x00F0) >> 4,
    ;
    assert(digit4 == op % 0x10) by (bit_vector)
        requires
            digit4 == op & 0x000F,
    ;
    (digit1, digit2, digit3, digit4)
}

/// Decodes a 16-bit opcode; `None` when it is not an instruction of the set.
pub fn decode(op: u16) -> (ins: Option<Instruction>)
    ensures
        ins == decode_spec(op),
{
    let (digit1, digit2, digit3, digit4) = digits(op);
    let x: u8 = digit2 as u8;
    let y: u8 = digit3 as u8;
    let n: u8 = digit4 as u8;
    let addr: u16 = op & 0xFFF;
    let byte: u8 = (op & 0xFF) as u8;
    assert(addr == op % 0x1000) by (bit_vector)
        requires
            addr == op & 0xFFF,
    ;
    assert(op & 0xFF == op % 0x100) by (bit_vector);
    match digit1 {
        0x0 => {
            if op == 0x0000 {
                Some(Instruction::Nop)
            } else if op == 0x00E0 {
                Some(Instruction::ClearScreen)
            } else if op == 0x00EE {
                Some(Instruction::Return)
            } else {
                Some(Instruction::SysCall { addr })
            }
        },
        0x1 => Some(Instruction::Jump { addr }),
        0x2 => Some(Instruction::Call { addr }),
        0x3 => Some(Instruction::SkipIfEqualByte { x, byte }),
        0x4 => Some(Instruction::SkipIfNotEqualByte { x, byte }),
        0x5 => {
            if n == 0 {
                Some(Instruction::SkipIfEqualReg { x, y })
            } else {
                None
            }
        },
        0x6 => Some(Instruction::LoadByte { x, byte }),
        0x7 => Some(Instruction::AddByte { x, byte }),
        0x8 => match n {
            0x0 => Some(Instruction::Move { x, y }),
            0x1 => Some(Instruction::Or { x, y }),
            0x2 => Some(Instruction::And { x, y }),
            0x3 => Some(Instruction::Xor { x, y }),
            0x4 => Some(Instruction::AddReg { x, y }),
            0x5 => Some(Instruction::SubReg { x, y }),
            0x6 => Some(Instruction::ShiftRight { x, y }),
            0x7 => Some(Instruction::SubReversed { x, y }),
            0xE => Some(Instruction::ShiftLeft { x, y }),
            _ => None,
        },
        0x9 => {
            if n == 0 {
                Some(Instruction::SkipIfNotEqualReg { x, y })
            } else {
                None
            }
        },
        0xA => Some(Instruction::SetIndex { addr }),
        0xB => Some(Instruction::JumpOffset { addr }),
        0xC => Some(Instruction::Random { x, byte }),
        0xD => Some(Instruction::Draw { x, y, rows: n }),
        0xE => {
            if byte == 0x9E {
                Some(Instruction::SkipIfKey { x })
            } else if byte == 0xA1 {
                Some(Instruction::SkipIfNotKey { x })
            } else {
                None
            }
        },
        _ => match byte {
            0x07 => Some(Instruction::LoadDelay { x }),
            0x0A => Some(Instruction::WaitKey { x }),
            0x15 => Some(Instruction::SetDelay { x }),
            0x18 => Some(Instruction::SetSound { x }),
            0x1E => Some(Instruction::AddIndex { x }),
            0x29 => Some(Instruction::FontChar { x }),
            0x33 => Some(Instruction::StoreBcd { x }),
            0x55 => Some(Instruction::StoreRegs { x }),
            0x65 => Some(Instruction::LoadRegs { x }),
            _ => None,
        },
    }
}

} // verus!
