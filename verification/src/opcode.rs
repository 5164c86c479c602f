use crate::fault::Fault;
use vstd::prelude::*;

verus! {

/// A decoded instruction.
#[derive(Clone, Copy, Debug, PartialEq, Eq, Structural)]
pub enum Instruction {
    /// `0x0000`: stop the run.
    Halt,
    /// `0x0_EE`: return from the current subroutine.
    Return,
    /// `0x2nnn`: call the subroutine at address `nnn`.
    Call { target: u16 },
    /// `0x8xy4`: add register `y` to register `x`, carry into register 15.
    Add { x: u8, y: u8 },
}

/// Bits 15..12 of an opcode: the instruction class.
pub open spec fn class_of(opcode: u16) -> int {
    opcode as int / 0x1000
}

/// Bits 11..8 of an opcode: the first register index.
pub open spec fn x_of(opcode: u16) -> int {
    (opcode as int / 0x100) % 0x10
}

/// Bits 7..4 of an opcode: the second register index.
pub open spec fn y_of(opcode: u16) -> int {
    (opcode as int / 0x10) % 0x10
}

/// Bits 3..0 of an opcode: the sub-opcode.
pub open spec fn d_of(opcode: u16) -> int {
    opcode as int % 0x10
}

/// Bits 11..0 of an opcode: the address operand.
pub open spec fn address_of(opcode: u16) -> int {
    opcode as int % 0x1000
}

/// The instruction table. The patterns are tried in this order, and no
/// opcode matches two of them.
pub open spec fn decode_spec(opcode: u16) -> Result<Instruction, Fault> {
    if opcode == 0 {
        Ok(Instruction::Halt)
    } else if class_of(opcode) == 0x0 && y_of(opcode) == 0xE && d_of(opcode) == 0xE {
        Ok(Instruction::Return)
    } else if class_of(opcode) == 0x2 {
        Ok(Instruction::Call { target: address_of(opcode) as u16 })
    } else if class_of(opcode) == 0x8 && d_of(opcode) == 0x4 {
        Ok(Instruction::Add { x: x_of(opcode) as u8, y: y_of(opcode) as u8 })
    } else {
        Err(Fault::DecodeFault(opcode))
    }
}

/// Splits an opcode into its four nibbles `(c, x, y, d)`.
pub fn nibbles(opcode: u16) -> (fields: (u8, u8, u8, u8))
    ensures
        fields.0 == class_of(opcode),
        fields.1 == x_of(opcode),
        fields.2 == y_of(opcode),
        fields.3 == d_of(opcode),
{
    let c: u16 = (opcode & 0xF000) >> 12;
    let x: u16 = (opcode & 0x0F00) >> 8;
    let y: u16 = (opcode & 0x00F0) >> 4;
    let d: u16 = opcode & 0x000F;
    assert((opcode & 0xF000) >> 12 == opcode / 0x1000) by (bit_vector);
    assert((opcode & 0x0F00) >> 8 == (opcode / 0x100) % 0x10) by (bit_vector);
    assert((opcode & 0x00F0) >> 4 == (opcode / 0x10) % 0x10) by (bit_vector);
    assert(opcode & 0x000F == opcode % 0x10) by (bit_vector);
    (c as u8, x as u8, y as u8, d as u8)
}

/// The low twelve bits of an opcode.
pub fn address(opcode: u16) -> (nnn: u16)
    ensures
        nnn == address_of(opcode),
{
    assert(opcode & 0x0FFF == opcode % 0x1000) by (bit_vector);
    opcode & 0x0FFF
}

/// Decodes an opcode into the instruction it denotes, or reports the opcode
/// in a `DecodeFault` when it matches no pattern.
pub fn decode(opcode: u16) -> (decoded: Result<Instruction, Fault>)
    ensures
        decoded == decode_spec(opcode),
{
    let (c, x, y, d) = nibbles(opcode);
    if opcode == 0 {
        Ok(Instruction::Halt)
    } else if c == 0x0 && y == 0xE && d == 0xE {
        Ok(Instruction::Return)
    } else if c == 0x2 {
        Ok(Instruction::Call { target: address(opcode) })
    } else if c == 0x8 && d == 0x4 {
        Ok(Instruction::Add { x, y })
    } else {
        Err(Fault::DecodeFault(opcode))
    }
}

} // verus!
