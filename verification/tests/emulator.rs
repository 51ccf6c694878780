use chip_8::emulator::Emulator;
use chip_8::input::EmulatorInput;
use chip_8::instruction::{Addr, Const, Instruction, Reg};
use chip_8::output::{DummyOutput, EmulatorOutput};

const X: u8 = 0xA;
const Y: u8 = 0xB;

/// Input that always presses a given key.
struct ConstantInput(u8);

impl EmulatorInput for ConstantInput {
    fn get_key(&self) -> Option<u8> {
        Some(self.0)
    }

    fn get_key_blocking(&self) -> u8 {
        self.0
    }
}

#[test]
fn clear_screen_clears_screen() {
    let mut emulator = Emulator::dummy();
    emulator.output_mut().set(0, 0, 1);
    emulator.output_mut().set(4, 8, 2);
    emulator.output_mut().set(3, 5, 3);
    emulator.execute_single(Instruction::ClearScreen);
    assert_eq!(emulator.output().get(0, 0), 0);
    assert_eq!(emulator.output().get(4, 8), 0);
    assert_eq!(emulator.output().get(3, 5), 0);
}

#[test]
fn emulator_clear_screen_clears_screen() {
    let mut emulator = Emulator::dummy();
    emulator.output_mut().set(0, 0, 1);
    emulator.execute_single(Instruction::ClearScreen);
    assert_eq!(emulator.output().get(0, 0), 0);
}

#[test]
fn goto_goes_to() {
    let mut emulator = Emulator::dummy();
    emulator.execute_single(Instruction::Goto(Addr(0x250)));
    assert_eq!(emulator.program_counter(), 0x250);
}

#[test]
fn return_after_call_is_neutral() {
    // Create emulator
    let mut emulator = Emulator::dummy();
    assert_eq!(emulator.program_counter(), 0x200);

    // Write program with call and return
    let program = [
        0x22, 0x06, // 0x00, jump to 0x206
        0x00, 0x00, // 0x02
        0x00, 0x00, // 0x04
        0x00, 0xEE, // 0x06, return
    ];
    emulator.load(&program);

    // Run the program
    emulator.step(); // Call 0x206
    assert_eq!(emulator.program_counter(), 0x206);
    emulator.step(); // Return to 202
    assert_eq!(emulator.program_counter(), 0x202);
}

#[test]
fn emulator_return_after_call_is_neutral() {
    let mut emulator = Emulator::dummy();
    assert_eq!(emulator.program_counter(), 0x200);

    let program = [
        0x22, 0x06, // 0x00, jump to 0x206
        0x00, 0x00, // 0x02
        0x00, 0x00, // 0x04
        0x00, 0xEE, // 0x06, return
    ];
    emulator.load(&program);

    emulator.step(); // Call 0x206
    assert_eq!(emulator.program_counter(), 0x206);
    emulator.step(); // Return to 202
    assert_eq!(emulator.program_counter(), 0x202);
}

#[test]
fn if_reg_eq_reg() {
    let mut emulator = Emulator::dummy();

    emulator.execute_many(&[
        Instruction::SetRegToConst(Reg(X), Const(3)),
        Instruction::SetRegToConst(Reg(Y), Const(5)),
    ]);

    // Should not skip instruction
    assert_eq!(emulator.program_counter(), 0x204);
    emulator.execute_single(Instruction::IfRegEqReg(Reg(X), Reg(Y)));
    assert_eq!(emulator.program_counter(), 0x206);

    // Should skip instruction
    emulator.execute_single(Instruction::SetRegToConst(Reg(Y), Const(3)));
    assert_eq!(emulator.program_counter(), 0x208);
    emulator.execute_single(Instruction::IfRegEqReg(Reg(X), Reg(Y)));
    assert_eq!(emulator.program_counter(), 0x20C);
}

#[test]
fn set_reg_to_const() {
    let mut emulator = Emulator::dummy();
    let value: u8 = 7;
    assert_eq!(emulator.register(X), 0);
    emulator.execute_single(Instruction::SetRegToConst(Reg(X), Const(value)));
    assert_eq!(emulator.register(X), value);
}

#[test]
fn inc_reg_by_const() {
    let mut emulator = Emulator::dummy();
    let value: u8 = 7;
    assert_eq!(emulator.register(X), 0);
    emulator.execute_single(Instruction::IncRegByConst(Reg(X), Const(value)));
    assert_eq!(emulator.register(X), value);
    emulator.execute_single(Instruction::IncRegByConst(Reg(X), Const(value)));
    assert_eq!(emulator.register(X), 2 * value);
}

#[test]
fn set_reg_to_reg() {
    let mut emulator = Emulator::dummy();
    emulator.execute_many(&[
        Instruction::SetRegToConst(Reg(X), Const(4)),
        Instruction::SetRegToConst(Reg(Y), Const(8)),
        Instruction::SetRegToReg(Reg(X), Reg(Y)),
    ]);
    assert_eq!(emulator.register(X), 8);
}

#[test]
fn bitwise_or() {
    let mut emulator = Emulator::dummy();
    emulator.execute_many(&[
        Instruction::SetRegToConst(Reg(0xA), Const(0b0101)),
        Instruction::SetRegToConst(Reg(0xB), Const(0b1100)),
        Instruction::BitwiseOr(Reg(0xA), Reg(0xB)),
    ]);
    assert_eq!(emulator.register(0xA), 0b1101);
}

#[test]
fn bitwise_and() {
    let mut emulator = Emulator::dummy();
    emulator.execute_many(&[
        Instruction::SetRegToConst(Reg(0xA), Const(0b0101)),
        Instruction::SetRegToConst(Reg(0xB), Const(0b1101)),
        Instruction::BitwiseAnd(Reg(0xA), Reg(0xB)),
    ]);
    assert_eq!(emulator.register(0xA), 0b0101);
}

#[test]
fn bitwise_xor() {
    let mut emulator = Emulator::dummy();
    emulator.execute_many(&[
        Instruction::SetRegToConst(Reg(0xA), Const(0b010101)),
        Instruction::SetRegToConst(Reg(0xB), Const(0b110111)),
        Instruction::BitwiseXor(Reg(0xA), Reg(0xB)),
    ]);
    assert_eq!(emulator.register(0xA), 0b100010);
}

#[test]
fn dec_reg_by_reg() {
    let mut emulator = Emulator::dummy();
    emulator.execute_many(&[
        Instruction::SetRegToConst(Reg(X), Const(10)),
        Instruction::SetRegToConst(Reg(Y), Const(7)),
        Instruction::DecRegByReg(Reg(X), Reg(Y)),
    ]);
    assert_eq!(emulator.register(X), 3);
}

#[test]
fn dec_reg_by_reg_underflow() {
    let mut emulator = Emulator::dummy();
    emulator.execute_many(&[
        Instruction::SetRegToConst(Reg(X), Const(5)),
        Instruction::SetRegToConst(Reg(Y), Const(45)),
        Instruction::DecRegByReg(Reg(X), Reg(Y)),
    ]);
    assert_eq!(emulator.register(X), 216);
}

#[test]
fn bitshift_right() {
    let mut emulator = Emulator::dummy();

    let value: u8 = 0b00001011;
    emulator.execute_single(Instruction::SetRegToConst(Reg(X), Const(value)));

    emulator.execute_single(Instruction::BitshiftRight(Reg(X)));
    assert_eq!(emulator.register(X), value >> 1);
    assert_eq!(emulator.register(0xF), 1);
    emulator.execute_single(Instruction::BitshiftRight(Reg(X)));
    assert_eq!(emulator.register(X), value >> 2);
    assert_eq!(emulator.register(0xF), 1);
    emulator.execute_single(Instruction::BitshiftRight(Reg(X)));
    assert_eq!(emulator.register(X), value >> 3);
    assert_eq!(emulator.register(0xF), 0);
}

#[test]
fn set_vx_vy_minus_vx() {
    let mut emulator = Emulator::dummy();
    emulator.execute_many(&[
        Instruction::SetRegToConst(Reg(X), Const(12)),
        Instruction::SetRegToConst(Reg(Y), Const(14)),
        Instruction::SetVxVyMinusVx(Reg(X), Reg(Y)),
    ]);
    assert_eq!(emulator.register(X), 2);
    assert_eq!(emulator.register(0xF), 1);
}

#[test]
fn set_vx_vy_minus_vx_borrow() {
    let mut emulator = Emulator::dummy();
    emulator.execute_many(&[
        Instruction::SetRegToConst(Reg(X), Const(20)),
        Instruction::SetRegToConst(Reg(Y), Const(14)),
        Instruction::SetVxVyMinusVx(Reg(X), Reg(Y)),
    ]);
    assert_eq!(emulator.register(X), 250);
    assert_eq!(emulator.register(0xF), 0);
}

#[test]
fn bitshift_left() {
    let mut emulator = Emulator::dummy();

    let value: u8 = 0b10110111;
    emulator.execute_single(Instruction::SetRegToConst(Reg(X), Const(value)));

    emulator.execute_single(Instruction::BitshiftLeft(Reg(X)));
    assert_eq!(emulator.register(X), value << 1);
    assert_eq!(emulator.register(0xF), 1);
    emulator.execute_single(Instruction::BitshiftLeft(Reg(X)));
    assert_eq!(emulator.register(X), value << 2);
    assert_eq!(emulator.register(0xF), 0);
    emulator.execute_single(Instruction::BitshiftLeft(Reg(X)));
    assert_eq!(emulator.register(X), value << 3);
    assert_eq!(emulator.register(0xF), 1);
}

#[test]
fn if_reg_neq_reg() {
    let mut emulator = Emulator::dummy();

    emulator.execute_many(&[
        Instruction::SetRegToConst(Reg(X), Const(3)),
        Instruction::SetRegToConst(Reg(Y), Const(5)),
    ]);

    // Should skip instruction
    assert_eq!(emulator.program_counter(), 0x204);
    emulator.execute_single(Instruction::IfRegNeqReg(Reg(X), Reg(Y)));
    assert_eq!(emulator.program_counter(), 0x208);

    // Should not skip instruction
    emulator.execute_single(Instruction::SetRegToConst(Reg(Y), Const(3)));
    assert_eq!(emulator.program_counter(), 0x20A);
    emulator.execute_single(Instruction::IfRegNeqReg(Reg(X), Reg(Y)));
    assert_eq!(emulator.program_counter(), 0x20C);
}

#[test]
fn set_i() {
    let mut emulator = Emulator::dummy();
    assert_eq!(emulator.i_register(), 0x0);
    emulator.execute_single(Instruction::SetI(Addr(0x232)));
    assert_eq!(emulator.i_register(), 0x232);
}

#[test]
fn set_pc_to_v0_plus_addr() {
    let mut emulator = Emulator::dummy();
    let v0: u8 = 7;
    let addr: u16 = 0x400;
    emulator.execute_many(&[
        Instruction::SetRegToConst(Reg(0x0), Const(v0)),
        Instruction::SetPcToV0PlusAddr(Addr(addr)),
    ]);
    assert_eq!(emulator.program_counter(), v0 as u16 + addr);
}

#[test]
fn set_vx_rand() {
    let mut emulator = Emulator::dummy();
    for _ in 0..10_000 {
        emulator.execute_single(Instruction::SetVxRand(Reg(X), Const(0x0F)));
        let value = emulator.register(X);
        assert!(value < 2u8.pow(4));
    }
}

#[test]
fn draw() {
    let mut emulator = Emulator::dummy();
    let program: [u8; 4] = [0b01001111, 0b01111001, 0b00101011, 0b01010110];
    emulator.load(&program);
    emulator.execute_many(&[
        Instruction::SetI(Addr(0x200)),
        Instruction::SetRegToConst(Reg(X), Const(0)),
        Instruction::SetRegToConst(Reg(Y), Const(0)),
        Instruction::Draw(Reg(X), Reg(Y), Const(program.len() as u8)),
    ]);
    for (h, row) in program.iter().enumerate() {
        for w in 0..8 {
            assert_eq!(emulator.output().get(w, h), (row >> (7 - w)) & 1);
        }
    }
}

#[test]
fn if_key_eq_vx() {
    let mut emulator = Emulator::new(ConstantInput(0), DummyOutput::new());

    // Skip since both are 0
    emulator.execute_single(Instruction::IfKeyEqVx(Reg(X)));
    assert_eq!(emulator.program_counter(), 0x204);

    // Don't skip. Input is 0, Vx is 5
    emulator.set_register(0xA, 5);
    emulator.execute_single(Instruction::IfKeyEqVx(Reg(X)));
    assert_eq!(emulator.program_counter(), 0x206);
}

#[test]
fn if_key_neq_vx() {
    let mut emulator = Emulator::new(ConstantInput(0), DummyOutput::new());

    // Don't skip since both are 0
    emulator.execute_single(Instruction::IfKeyNeqVx(Reg(X)));
    assert_eq!(emulator.program_counter(), 0x202);

    // Skip since they are different
    emulator.set_register(0xA, 5);
    emulator.execute_single(Instruction::IfKeyNeqVx(Reg(X)));
    assert_eq!(emulator.program_counter(), 0x206);
}

#[test]
fn set_reg_to_delay_timer() {
    let mut emulator = Emulator::dummy();
    emulator.execute_many(&[
        Instruction::SetRegToConst(Reg(X), Const(123)),
        Instruction::SetDelayTimerToReg(Reg(X)),
    ]);
    assert_eq!(emulator.delay_timer(), 123);
    emulator.execute_single(Instruction::SetRegToDelayTimer(Reg(Y)));
    // Decreases one in previous step
    assert_eq!(emulator.register(Y), 122);
}

#[test]
fn set_reg_to_get_key() {
    let mut emulator = Emulator::new(ConstantInput(9), DummyOutput::new());
    emulator.execute_single(Instruction::SetRegToGetKey(Reg(X)));
    assert_eq!(emulator.register(X), 9);
}

#[test]
fn set_delay_timer() {
    let mut emulator = Emulator::dummy();
    emulator.execute_many(&[
        Instruction::SetRegToConst(Reg(X), Const(97)),
        Instruction::SetDelayTimerToReg(Reg(X)),
    ]);
    assert_eq!(emulator.delay_timer(), 97);
}

#[test]
fn set_sound_timer() {
    let mut emulator = Emulator::dummy();
    emulator.execute_many(&[
        Instruction::SetRegToConst(Reg(X), Const(97)),
        Instruction::SetSoundTimerToReg(Reg(X)),
    ]);
    assert_eq!(emulator.sound_timer(), 97);
}

#[test]
fn add_reg_to_i() {
    let mut emulator = Emulator::dummy();
    emulator.execute_many(&[
        Instruction::SetRegToConst(Reg(X), Const(32)),
        Instruction::SetI(Addr(32)),
        Instruction::AddRegToI(Reg(X)),
    ]);
    assert_eq!(emulator.i_register(), 64);
}

#[test]
fn set_i_to_sprite_addr_vx() {
    let mut emulator = Emulator::dummy();
    let sprite_no: u8 = 8;
    emulator.execute_many(&[
        Instruction::SetRegToConst(Reg(X), Const(sprite_no)),
        Instruction::SetIToSpriteAddrVx(Reg(X)),
    ]);
    assert_eq!(emulator.i_register(), 5 * sprite_no as u16); // Each sprite is 5 bytes wide
}

#[test]
fn set_i_to_bcd_of_reg() {
    let mut emulator = Emulator::dummy();
    emulator.execute_many(&[
        Instruction::SetRegToConst(Reg(X), Const(184)),
        Instruction::SetIToBcdOfReg(Reg(X)),
    ]);
    let i = emulator.i_register() as usize;
    assert_eq!(emulator.memory_byte(i), 1);
    assert_eq!(emulator.memory_byte(i + 1), 8);
    assert_eq!(emulator.memory_byte(i + 2), 4);
}

#[test]
fn reg_dump() {
    let mut emulator = Emulator::dummy();

    // Set V0..V0xF to their index
    for i in 0..=0xF {
        emulator.execute_single(Instruction::SetRegToConst(Reg(i), Const(i)));
    }

    // Dump all up to Vx
    emulator.execute_single(Instruction::SetI(Addr(0x200)));
    emulator.execute_single(Instruction::RegDump(Reg(X)));

    // All register values up to x should be in memory
    for offset in 0..X {
        assert_eq!(
            emulator.memory_byte(emulator.i_register() as usize + offset as usize),
            offset
        );
    }

    // The others should not have been dumped
    for offset in X + 1..=0xF {
        assert_eq!(emulator.memory_byte(emulator.i_register() as usize + offset as usize), 0);
    }
}

#[test]
fn reg_load() {
    let mut emulator = Emulator::dummy();

    // Add some data
    let mut data = Vec::new();
    for offset in 0..=0xF {
        data.push(offset);
    }
    emulator.load(&data);

    // Load into registers
    emulator.execute_single(Instruction::SetI(Addr(0x200)));
    emulator.execute_single(Instruction::RegLoad(Reg(X)));

    // Registers up to x should hold the loaded data
    for offset in 0..=X {
        assert_eq!(emulator.register(offset), offset);
    }

    // The others should not have been loaded
    for offset in X + 1..=0xF {
        assert_eq!(emulator.register(offset), 0);
    }
}
