//! The CHIP-8 instruction set and its decoder.

use vstd::prelude::*;
use crate::bit_splitter::{BitSplitter, high_byte, low_byte, word_of};

verus! {

/// A wrapper for addresses.
#[derive(Clone, Copy, Debug, PartialEq, Eq, Structural)]
pub struct Addr(pub u16);

/// A wrapper for registers.
#[derive(Clone, Copy, Debug, PartialEq, Eq, Structural)]
pub struct Reg(pub u8);

/// A wrapper for constants.
#[derive(Clone, Copy, Debug, PartialEq, Eq, Structural)]
pub struct Const(pub u8);

/// A single instruction from the CHIP-8 instruction set.
/// Two bytes written in hexadecimal, with the following special characters:
/// - NNN: address
/// - NN: 8-bit constant
/// - N: 4-bit constant
/// - X and Y: 4-bit register identifier
/// - PC: Program counter
/// - I: 16 bit register for memory address
/// - VN: One of the 16 available variables (register identifiers)
#[derive(Clone, Copy, Debug, PartialEq, Eq, Structural)]
pub enum Instruction {
    ClearScreen,               // 00E0
    Return,                    // 00EE
    Goto(Addr),                // 1NNN
    Call(Addr),                // 2NNN
    IfRegEqConst(Reg, Const),  // 3XNN
    IfRegNeqConst(Reg, Const), // 4XNN
    IfRegEqReg(Reg, Reg),      // 5XY0
    SetRegToConst(Reg, Const), // 6XNN
    IncRegByConst(Reg, Const), // 7XNN
    SetRegToReg(Reg, Reg),     // 8XY0
    BitwiseOr(Reg, Reg),       // 8XY1
    BitwiseAnd(Reg, Reg),      // 8XY2
    BitwiseXor(Reg, Reg),      // 8XY3
    IncRegByReg(Reg, Reg),     // 8XY4
    DecRegByReg(Reg, Reg),     // 8XY5
    BitshiftRight(Reg),        // 8XY6
    SetVxVyMinusVx(Reg, Reg),  // 8XY7
    BitshiftLeft(Reg),         // 8XYE
    IfRegNeqReg(Reg, Reg),     // 9XY0
    SetI(Addr),                // ANNN
    SetPcToV0PlusAddr(Addr),   // BNNN
    SetVxRand(Reg, Const),     // CXNN
    Draw(Reg, Reg, Const),     // DXYN
    IfKeyEqVx(Reg),            // EX9E
    IfKeyNeqVx(Reg),           // EXA1
    SetRegToDelayTimer(Reg),   // FX07
    SetRegToGetKey(Reg),       // FX0A
    SetDelayTimerToReg(Reg),   // FX15
    SetSoundTimerToReg(Reg),   // FX18
    AddRegToI(Reg),            // FX1E
    SetIToSpriteAddrVx(Reg),   // FX29
    SetIToBcdOfReg(Reg),       // FX33
    RegDump(Reg),              // FX55
    RegLoad(Reg),              // FX65
}

/// What a byte pair decodes to: the dispatch key is the 4-nibble tuple, and
/// every canonical opcode family is matched by its nibble pattern. A byte
/// pair that matches no pattern is an invalid opcode and decodes to `None`.
pub open spec fn decode(high: u8, low: u8) -> Option<Instruction> {
    let x = Reg(high & 0xF);
    let y = Reg(low >> 4);
    let nn = Const(low);
    let nnn = Addr(word_of(high, low) & 0xFFF);
    match (high >> 4, high & 0xF, low >> 4, low & 0xF) {
        (0, 0, 0xE, 0) => Some(Instruction::ClearScreen),
        (0, 0, 0xE, 0xE) => Some(Instruction::Return),
        (1, _, _, _) => Some(Instruction::Goto(nnn)),
        (2, _, _, _) => Some(Instruction::Call(nnn)),
        (3, _, _, _) => Some(Instruction::IfRegEqConst(x, nn)),
        (4, _, _, _) => Some(Instruction::IfRegNeqConst(x, nn)),
        (5, _, _, 0) => Some(Instruction::IfRegEqReg(x, y)),
        (6, _, _, _) => Some(Instruction::SetRegToConst(x, nn)),
        (7, _, _, _) => Some(Instruction::IncRegByConst(x, nn)),
        (8, _, _, 0) => Some(Instruction::SetRegToReg(x, y)),
        (8, _, _, 1) => Some(Instruction::BitwiseOr(x, y)),
        (8, _, _, 2) => Some(Instruction::BitwiseAnd(x, y)),
        (8, _, _, 3) => Some(Instruction::BitwiseXor(x, y)),
        (8, _, _, 4) => Some(Instruction::IncRegByReg(x, y)),
        (8, _, _, 5) => Some(Instruction::DecRegByReg(x, y)),
        (8, _, _, 6) => Some(Instruction::BitshiftRight(x)),
        (8, _, _, 7) => Some(Instruction::SetVxVyMinusVx(x, y)),
        (8, _, _, 0xE) => Some(Instruction::BitshiftLeft(x)),
        (9, _, _, 0) => Some(Instruction::IfRegNeqReg(x, y)),
        (0xA, _, _, _) => Some(Instruction::SetI(nnn)),
        (0xB, _, _, _) => Some(Instruction::SetPcToV0PlusAddr(nnn)),
        (0xC, _, _, _) => Some(Instruction::SetVxRand(x, nn)),
        (0xD, _, _, _) => Some(Instruction::Draw(x, y, Const(low & 0xF))),
        (0xE, _, 9, 0xE) => Some(Instruction::IfKeyEqVx(x)),
        (0xE, _, 0xA, 1) => Some(Instruction::IfKeyNeqVx(x)),
        (0xF, _, 0, 7) => Some(Instruction::SetRegToDelayTimer(x)),
        (0xF, _, 0, 0xA) => Some(Instruction::SetRegToGetKey(x)),
        (0xF, _, 1, 5) => Some(Instruction::SetDelayTimerToReg(x)),
        (0xF, _, 1, 8) => Some(Instruction::SetSoundTimerToReg(x)),
        (0xF, _, 1, 0xE) => Some(Instruction::AddRegToI(x)),
        (0xF, _, 2, 9) => Some(Instruction::SetIToSpriteAddrVx(x)),
        (0xF, _, 3, 3) => Some(Instruction::SetIToBcdOfReg(x)),
        (0xF, _, 5, 5) => Some(Instruction::RegDump(x)),
        (0xF, _, 6, 5) => Some(Instruction::RegLoad(x)),
        _ => None,
    }
}

/// `decode` applied to the two bytes of a 16-bit word.
pub open spec fn decode_word(value: u16) -> Option<Instruction> {
    decode(high_byte(value), low_byte(value))
}

/// The operand ranges every decoded instruction satisfies: register indices
/// and draw heights are 4-bit fields, addresses are 12-bit.
pub open spec fn operands_wf(instruction: Instruction) -> bool {
    match instruction {
        Instruction::ClearScreen | Instruction::Return => true,
        Instruction::Goto(Addr(a)) | Instruction::Call(Addr(a)) | Instruction::SetI(Addr(a))
        | Instruction::SetPcToV0PlusAddr(Addr(a)) => a <= 0xFFF,
        Instruction::IfRegEqConst(Reg(x), _) | Instruction::IfRegNeqConst(Reg(x), _)
        | Instruction::SetRegToConst(Reg(x), _) | Instruction::IncRegByConst(Reg(x), _)
        | Instruction::SetVxRand(Reg(x), _) => x < 16,
        Instruction::IfRegEqReg(Reg(x), Reg(y)) | Instruction::SetRegToReg(Reg(x), Reg(y))
        | Instruction::BitwiseOr(Reg(x), Reg(y)) | Instruction::BitwiseAnd(Reg(x), Reg(y))
        | Instruction::BitwiseXor(Reg(x), Reg(y)) | Instruction::IncRegByReg(Reg(x), Reg(y))
        | Instruction::DecRegByReg(Reg(x), Reg(y)) | Instruction::SetVxVyMinusVx(Reg(x), Reg(y))
        | Instruction::IfRegNeqReg(Reg(x), Reg(y)) => x < 16 && y < 16,
        Instruction::BitshiftRight(Reg(x)) | Instruction::BitshiftLeft(Reg(x))
        | Instruction::IfKeyEqVx(Reg(x)) | Instruction::IfKeyNeqVx(Reg(x))
        | Instruction::SetRegToDelayTimer(Reg(x)) | Instruction::SetRegToGetKey(Reg(x))
        | Instruction::SetDelayTimerToReg(Reg(x)) | Instruction::SetSoundTimerToReg(Reg(x))
        | Instruction::AddRegToI(Reg(x)) | Instruction::SetIToSpriteAddrVx(Reg(x))
        | Instruction::SetIToBcdOfReg(Reg(x)) | Instruction::RegDump(Reg(x))
        | Instruction::RegLoad(Reg(x)) => x < 16,
        Instruction::Draw(Reg(x), Reg(y), Const(n)) => x < 16 && y < 16 && n < 16,
    }
}

/// The byte pair that encodes an instruction: the inverse of `decode` on
/// instructions whose operands are in range.
pub open spec fn encode(instruction: Instruction) -> (u8, u8) {
    match instruction {
        Instruction::ClearScreen => (0x00, 0xE0),
        Instruction::Return => (0x00, 0xEE),
        Instruction::Goto(Addr(a)) => (0x10 | (a >> 8) as u8, a as u8),
        Instruction::Call(Addr(a)) => (0x20 | (a >> 8) as u8, a as u8),
        Instruction::IfRegEqConst(Reg(x), Const(n)) => (0x30 | x, n),
        Instruction::IfRegNeqConst(Reg(x), Const(n)) => (0x40 | x, n),
        Instruction::IfRegEqReg(Reg(x), Reg(y)) => (0x50 | x, (y << 4) | 0x0),
        Instruction::SetRegToConst(Reg(x), Const(n)) => (0x60 | x, n),
        Instruction::IncRegByConst(Reg(x), Const(n)) => (0x70 | x, n),
        Instruction::SetRegToReg(Reg(x), Reg(y)) => (0x80 | x, (y << 4) | 0x0),
        Instruction::BitwiseOr(Reg(x), Reg(y)) => (0x80 | x, (y << 4) | 0x1),
        Instruction::BitwiseAnd(Reg(x), Reg(y)) => (0x80 | x, (y << 4) | 0x2),
        Instruction::BitwiseXor(Reg(x), Reg(y)) => (0x80 | x, (y << 4) | 0x3),
        Instruction::IncRegByReg(Reg(x), Reg(y)) => (0x80 | x, (y << 4) | 0x4),
        Instruction::DecRegByReg(Reg(x), Reg(y)) => (0x80 | x, (y << 4) | 0x5),
        Instruction::BitshiftRight(Reg(x)) => (0x80 | x, 0x06),
        Instruction::SetVxVyMinusVx(Reg(x), Reg(y)) => (0x80 | x, (y << 4) | 0x7),
        Instruction::BitshiftLeft(Reg(x)) => (0x80 | x, 0x0E),
        Instruction::IfRegNeqReg(Reg(x), Reg(y)) => (0x90 | x, (y << 4) | 0x0),
        Instruction::SetI(Addr(a)) => (0xA0 | (a >> 8) as u8, a as u8),
        Instruction::SetPcToV0PlusAddr(Addr(a)) => (0xB0 | (a >> 8) as u8, a as u8),
        Instruction::SetVxRand(Reg(x), Const(n)) => (0xC0 | x, n),
        Instruction::Draw(Reg(x), Reg(y), Const(n)) => (0xD0 | x, (y << 4) | n),
        Instruction::IfKeyEqVx(Reg(x)) => (0xE0 | x, 0x9E),
        Instruction::IfKeyNeqVx(Reg(x)) => (0xE0 | x, 0xA1),
        Instruction::SetRegToDelayTimer(Reg(x)) => (0xF0 | x, 0x07),
        Instruction::SetRegToGetKey(Reg(x)) => (0xF0 | x, 0x0A),
        Instruction::SetDelayTimerToReg(Reg(x)) => (0xF0 | x, 0x15),
        Instruction::SetSoundTimerToReg(Reg(x)) => (0xF0 | x, 0x18),
        Instruction::AddRegToI(Reg(x)) => (0xF0 | x, 0x1E),
        Instruction::SetIToSpriteAddrVx(Reg(x)) => (0xF0 | x, 0x29),
        Instruction::SetIToBcdOfReg(Reg(x)) => (0xF0 | x, 0x33),
        Instruction::RegDump(Reg(x)) => (0xF0 | x, 0x55),
        Instruction::RegLoad(Reg(x)) => (0xF0 | x, 0x65),
    }
}

impl Instruction {
    /// Split a 16-bit word into its high and low byte.
    pub fn split_u16(value: u16) -> (r: (u8, u8))
        ensures
            r.0 == high_byte(value),
            r.1 == low_byte(value),
    {
        let left = (value & 0xFF00) >> 8;
        let right = value & 0x00FF;
        proof {
            assert((value & 0xFF00) >> 8 == value >> 8) by (bit_vector);
        }
        (left as u8, right as u8)
    }

    /// Decode a byte pair, or report an invalid opcode as `None`.
    pub fn try_from_two_u8(left: u8, right: u8) -> (r: Option<Instruction>)
        ensures
            r == decode(left, right),
    {
        let opcode = BitSplitter::new(left, right);
        let x = Reg(left & 0xF);
        let y = Reg(right >> 4);
        match opcode.as_four_u8() {
            (0, 0, 0xE, 0) => Some(Instruction::ClearScreen),
            (0, 0, 0xE, 0xE) => Some(Instruction::Return),
            (1, _, _, _) => Some(Instruction::Goto(Addr(opcode.last_12_bits()))),
            (2, _, _, _) => Some(Instruction::Call(Addr(opcode.last_12_bits()))),
            (3, _, _, _) => Some(Instruction::IfRegEqConst(x, Const(opcode.last_8_bits()))),
            (4, _, _, _) => Some(Instruction::IfRegNeqConst(x, Const(opcode.last_8_bits()))),
            (5, _, _, 0) => Some(Instruction::IfRegEqReg(x, y)),
            (6, _, _, _) => Some(Instruction::SetRegToConst(x, Const(opcode.last_8_bits()))),
            (7, _, _, _) => Some(Instruction::IncRegByConst(x, Const(opcode.last_8_bits()))),
            (8, _, _, 0) => Some(Instruction::SetRegToReg(x, y)),
            (8, _, _, 1) => Some(Instruction::BitwiseOr(x, y)),
            (8, _, _, 2) => Some(Instruction::BitwiseAnd(x, y)),
            (8, _, _, 3) => Some(Instruction::BitwiseXor(x, y)),
            (8, _, _, 4) => Some(Instruction::IncRegByReg(x, y)),
            (8, _, _, 5) => Some(Instruction::DecRegByReg(x, y)),
            (8, _, _, 6) => Some(Instruction::BitshiftRight(x)),
            (8, _, _, 7) => Some(Instruction::SetVxVyMinusVx(x, y)),
            (8, _, _, 0xE) => Some(Instruction::BitshiftLeft(x)),
            (9, _, _, 0) => Some(Instruction::IfRegNeqReg(x, y)),
            (0xA, _, _, _) => Some(Instruction::SetI(Addr(opcode.last_12_bits()))),
            (0xB, _, _, _) => Some(Instruction::SetPcToV0PlusAddr(Addr(opcode.last_12_bits()))),
            (0xC, _, _, _) => Some(Instruction::SetVxRand(x, Const(opcode.last_8_bits()))),
            (0xD, _, _, n) => Some(Instruction::Draw(x, y, Const(n))),
            (0xE, _, 9, 0xE) => Some(Instruction::IfKeyEqVx(x)),
            (0xE, _, 0xA, 1) => Some(Instruction::IfKeyNeqVx(x)),
            (0xF, _, 0, 7) => Some(Instruction::SetRegToDelayTimer(x)),
            (0xF, _, 0, 0xA) => Some(Instruction::SetRegToGetKey(x)),
            (0xF, _, 1, 5) => Some(Instruction::SetDelayTimerToReg(x)),
            (0xF, _, 1, 8) => Some(Instruction::SetSoundTimerToReg(x)),
            (0xF, _, 1, 0xE) => Some(Instruction::AddRegToI(x)),
            (0xF, _, 2, 9) => Some(Instruction::SetIToSpriteAddrVx(x)),
            (0xF, _, 3, 3) => Some(Instruction::SetIToBcdOfReg(x)),
            (0xF, _, 5, 5) => Some(Instruction::RegDump(x)),
            (0xF, _, 6, 5) => Some(Instruction::RegLoad(x)),
            _ => None,
        }
    }

    /// Decode a 16-bit word, or report an invalid opcode as `None`.
    pub fn try_from_u16(value: u16) -> (r: Option<Instruction>)
        ensures
            r == decode_word(value),
    {
        let (left, right) = Self::split_u16(value);
        Self::try_from_two_u8(left, right)
    }

    /// Decode a byte pair that is known to hold a valid opcode.
    pub fn from_two_u8(left: u8, right: u8) -> (r: Instruction)
        requires
            decode(left, right) is Some,
        ensures
            Some(r) == decode(left, right),
    {
        match Self::try_from_two_u8(left, right) {
            Some(instruction) => instruction,
            None => vstd::pervasive::unreached(),
        }
    }

    /// Decode a 16-bit word that is known to hold a valid opcode.
    pub fn from_u16(value: u16) -> (r: Instruction)
        requires
            decode_word(value) is Some,
        ensures
            Some(r) == decode_word(value),
    {
        let (left, right) = Self::split_u16(value);
        Self::from_two_u8(left, right)
    }
}

} // verus!
