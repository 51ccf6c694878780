use chip_8::instruction::{Addr, Const, Instruction, Reg};

#[test]
fn opcodes_are_parsed_correctly() {
    assert_eq!(Instruction::ClearScreen, Instruction::from_u16(0x00E0));
    assert_eq!(Instruction::Return, Instruction::from_u16(0x00EE));
    assert_eq!(Instruction::Goto(Addr(0x25)), Instruction::from_u16(0x1025));
    assert_eq!(Instruction::Call(Addr(0x37)), Instruction::from_u16(0x2037));
    assert_eq!(Instruction::IfRegEqConst(Reg(0xA), Const(8)), Instruction::from_u16(0x3A08));
    assert_eq!(Instruction::IfRegNeqConst(Reg(0xA), Const(8)), Instruction::from_u16(0x4A08));
    assert_eq!(Instruction::IfRegNeqConst(Reg(0xA), Const(8)), Instruction::from_u16(0x4A08));
    assert_eq!(Instruction::SetRegToConst(Reg(0xB), Const(0x23)), Instruction::from_u16(0x6B23));
    assert_eq!(Instruction::IncRegByConst(Reg(0xC), Const(0xA1)), Instruction::from_u16(0x7CA1));
    assert_eq!(Instruction::SetRegToReg(Reg(0xA), Reg(0xB)), Instruction::from_u16(0x8AB0));
    assert_eq!(Instruction::BitwiseOr(Reg(0xD), Reg(0xE)), Instruction::from_u16(0x8DE1));
    assert_eq!(Instruction::BitwiseAnd(Reg(0xD), Reg(0xE)), Instruction::from_u16(0x8DE2));
    assert_eq!(Instruction::BitwiseXor(Reg(0xD), Reg(0xE)), Instruction::from_u16(0x8DE3));
    assert_eq!(Instruction::IncRegByReg(Reg(0xA), Reg(0xB)), Instruction::from_u16(0x8AB4));
    assert_eq!(Instruction::DecRegByReg(Reg(0xA), Reg(0xB)), Instruction::from_u16(0x8AB5));
    assert_eq!(Instruction::BitshiftRight(Reg(0xA)), Instruction::from_u16(0x8AB6));
    assert_eq!(Instruction::SetVxVyMinusVx(Reg(0xA), Reg(0xB)), Instruction::from_u16(0x8AB7));
    assert_eq!(Instruction::BitshiftLeft(Reg(0xA)), Instruction::from_u16(0x8A0E));
    assert_eq!(Instruction::IfRegNeqReg(Reg(0xA), Reg(0xB)), Instruction::from_u16(0x9AB0));
    assert_eq!(Instruction::SetI(Addr(0x25)), Instruction::from_u16(0xA025));
    assert_eq!(Instruction::SetPcToV0PlusAddr(Addr(0x25)), Instruction::from_u16(0xB025));
    assert_eq!(Instruction::SetVxRand(Reg(0xA), Const(0x23)), Instruction::from_u16(0xCA23));
    assert_eq!(Instruction::Draw(Reg(0xA), Reg(0xB), Const(0xC)), Instruction::from_u16(0xDABC));
    assert_eq!(Instruction::IfKeyEqVx(Reg(0xA)), Instruction::from_u16(0xEA9E));
    assert_eq!(Instruction::IfKeyNeqVx(Reg(0xA)), Instruction::from_u16(0xEAA1));
    assert_eq!(Instruction::SetRegToDelayTimer(Reg(0xA)), Instruction::from_u16(0xFA07));
    assert_eq!(Instruction::SetRegToGetKey(Reg(0xA)), Instruction::from_u16(0xFA0A));
    assert_eq!(Instruction::SetDelayTimerToReg(Reg(0xA)), Instruction::from_u16(0xFA15));
    assert_eq!(Instruction::SetSoundTimerToReg(Reg(0xA)), Instruction::from_u16(0xFA18));
    assert_eq!(Instruction::AddRegToI(Reg(0xA)), Instruction::from_u16(0xFA1E));
    assert_eq!(Instruction::SetIToSpriteAddrVx(Reg(0xA)), Instruction::from_u16(0xFA29));
    assert_eq!(Instruction::SetIToBcdOfReg(Reg(0xA)), Instruction::from_u16(0xFA33));
    assert_eq!(Instruction::RegDump(Reg(0xA)), Instruction::from_u16(0xFA55));
    assert_eq!(Instruction::RegLoad(Reg(0xA)), Instruction::from_u16(0xFA65));
}

#[test]
fn from_two_u8_equals_from_u16() {
    assert_eq!(Instruction::from_two_u8(0x12, 0x34), Instruction::from_u16(0x1234));
    assert_eq!(Instruction::from_two_u8(0x2F, 0x2F), Instruction::from_u16(0x2F2F));
    assert_eq!(Instruction::from_two_u8(0x10, 0x20), Instruction::from_u16(0x1020));
}

#[test]
fn split_u16_test() {
    assert_eq!((0x12, 0x34), Instruction::split_u16(0x1234));
    assert_eq!((0xFF, 0xFF), Instruction::split_u16(0xFFFF));
    assert_eq!((0x00, 0x00), Instruction::split_u16(0x0000));
    assert_eq!((0xF0, 0xF0), Instruction::split_u16(0xF0F0));
}

#[test]
fn instruction_opcodes_are_parsed_correctly() {
    assert_eq!(Instruction::ClearScreen, Instruction::from_u16(0x00E0));
    assert_eq!(Instruction::Return, Instruction::from_u16(0x00EE));
    assert_eq!(Instruction::Goto(Addr(0x25)), Instruction::from_u16(0x1025));
    assert_eq!(Instruction::Call(Addr(0x37)), Instruction::from_u16(0x2037));
    assert_eq!(Instruction::IfRegEqConst(Reg(0xA), Const(8)), Instruction::from_u16(0x3A08));
    assert_eq!(Instruction::IfRegNeqConst(Reg(0xA), Const(8)), Instruction::from_u16(0x4A08));
    assert_eq!(Instruction::IfRegNeqConst(Reg(0xA), Const(8)), Instruction::from_u16(0x4A08));
    assert_eq!(Instruction::SetRegToConst(Reg(0xB), Const(0x23)), Instruction::from_u16(0x6B23));
    assert_eq!(Instruction::IncRegByConst(Reg(0xC), Const(0xA1)), Instruction::from_u16(0x7CA1));
    assert_eq!(Instruction::BitwiseOr(Reg(0xD), Reg(0xE)), Instruction::from_u16(0x8DE1));
    assert_eq!(Instruction::BitwiseAnd(Reg(0xD), Reg(0xE)), Instruction::from_u16(0x8DE2));
    assert_eq!(Instruction::BitwiseXor(Reg(0xD), Reg(0xE)), Instruction::from_u16(0x8DE3));
    assert_eq!(Instruction::IncRegByReg(Reg(0xA), Reg(0xB)), Instruction::from_u16(0x8AB4));
    assert_eq!(Instruction::DecRegByReg(Reg(0xA), Reg(0xB)), Instruction::from_u16(0x8AB5));
    assert_eq!(Instruction::BitshiftRight(Reg(0xA)), Instruction::from_u16(0x8AB6));
}

#[test]
fn instruction_from_two_u8_equals_from_u16() {
    assert_eq!(Instruction::from_two_u8(0x12, 0x34), Instruction::from_u16(0x1234));
    assert_eq!(Instruction::from_two_u8(0x2F, 0x2F), Instruction::from_u16(0x2F2F));
    assert_eq!(Instruction::from_two_u8(0x10, 0x20), Instruction::from_u16(0x1020));
}

#[test]
fn instruction_split_u16_test() {
    assert_eq!((0x12, 0x34), Instruction::split_u16(0x1234));
    assert_eq!((0xFF, 0xFF), Instruction::split_u16(0xFFFF));
    assert_eq!((0x00, 0x00), Instruction::split_u16(0x0000));
    assert_eq!((0xF0, 0xF0), Instruction::split_u16(0xF0F0));
}

#[test]
fn unknown_opcodes_are_rejected() {
    assert_eq!(None, Instruction::try_from_u16(0x00E1));
    assert_eq!(None, Instruction::try_from_u16(0x5AB1));
    assert_eq!(None, Instruction::try_from_u16(0x8AB8));
    assert_eq!(None, Instruction::try_from_u16(0x9AB2));
    assert_eq!(None, Instruction::try_from_u16(0xE0FF));
    assert_eq!(None, Instruction::try_from_u16(0xFA66));
    assert_eq!(None, Instruction::try_from_u16(0x0000));
}

#[test]
fn known_opcodes_are_accepted() {
    assert_eq!(Some(Instruction::ClearScreen), Instruction::try_from_u16(0x00E0));
    assert_eq!(
        Some(Instruction::Draw(Reg(0x1), Reg(0x2), Const(0x3))),
        Instruction::try_from_two_u8(0xD1, 0x23)
    );
}
