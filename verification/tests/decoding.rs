use secrus8::parser::Instruction;
use secrus8::Error;

#[test]
fn decodes_fixed_opcodes() {
    assert_eq!(Instruction::from_opcode(0x00E0), Ok(Instruction::ClearScreen));
    assert_eq!(Instruction::from_opcode(0x00EE), Ok(Instruction::ReturnFromSubroutine));
}

#[test]
fn decodes_address_operands() {
    assert_eq!(Instruction::from_opcode(0x1234), Ok(Instruction::Jump(0x234)));
    assert_eq!(Instruction::from_opcode(0x2FFF), Ok(Instruction::Call(0xFFF)));
    assert_eq!(Instruction::from_opcode(0xA000), Ok(Instruction::SetIndexRegisterToValue(0x000)));
    assert_eq!(Instruction::from_opcode(0xB0F1), Ok(Instruction::JumpByValue(0x0F1)));
}

#[test]
fn decodes_register_and_byte_operands() {
    assert_eq!(Instruction::from_opcode(0x3A42), Ok(Instruction::SkipIfEqualByte(0xA, 0x42)));
    assert_eq!(Instruction::from_opcode(0x4B00), Ok(Instruction::SkipIfNotEqualByte(0xB, 0x00)));
    assert_eq!(Instruction::from_opcode(0x60FF), Ok(Instruction::SetRegisterToValue(0x0, 0xFF)));
    assert_eq!(Instruction::from_opcode(0x7F01), Ok(Instruction::AddToRegister(0xF, 0x01)));
    assert_eq!(
        Instruction::from_opcode(0xC37F),
        Ok(Instruction::SetRegisterToRandAndValue(0x3, 0x7F))
    );
}

#[test]
fn decodes_two_register_operands() {
    assert_eq!(Instruction::from_opcode(0x5120), Ok(Instruction::SkipIfRegistersEqual(1, 2)));
    assert_eq!(Instruction::from_opcode(0x9EF0), Ok(Instruction::SkipIfRegistersNotEqual(14, 15)));
    assert_eq!(Instruction::from_opcode(0x8AB0), Ok(Instruction::SetRegisterToRegisterValue(10, 11)));
    assert_eq!(Instruction::from_opcode(0x8AB1), Ok(Instruction::RegistersBitwiseOr(10, 11)));
    assert_eq!(Instruction::from_opcode(0x8AB2), Ok(Instruction::RegistersBitwiseAnd(10, 11)));
    assert_eq!(Instruction::from_opcode(0x8AB3), Ok(Instruction::RegistersBitwiseXor(10, 11)));
    assert_eq!(Instruction::from_opcode(0x8AB4), Ok(Instruction::RegistersSumWithOverflow(10, 11)));
    assert_eq!(
        Instruction::from_opcode(0x8AB5),
        Ok(Instruction::SubtractRegisterFromRegisterValue(10, 11))
    );
    assert_eq!(Instruction::from_opcode(0x8AB6), Ok(Instruction::ShiftRegisterBitsRight(10)));
    assert_eq!(
        Instruction::from_opcode(0x8AB7),
        Ok(Instruction::SubtractRegisterValueFromRegister(10, 11))
    );
    assert_eq!(Instruction::from_opcode(0x8ABE), Ok(Instruction::ShiftRegisterBitsLeft(10)));
    assert_eq!(Instruction::from_opcode(0xD125), Ok(Instruction::DrawSprite(1, 2, 5)));
}

#[test]
fn decodes_single_register_operands() {
    assert_eq!(Instruction::from_opcode(0xE49E), Ok(Instruction::SkipIfKeyEqualsRegister(4)));
    assert_eq!(Instruction::from_opcode(0xE4A1), Ok(Instruction::SkipIfKeyNotEqualsRegister(4)));
    assert_eq!(Instruction::from_opcode(0xF507), Ok(Instruction::SetRegisterToDelayTimerValue(5)));
    assert_eq!(Instruction::from_opcode(0xF515), Ok(Instruction::SetDelayTimerToRegisterValue(5)));
    assert_eq!(Instruction::from_opcode(0xF518), Ok(Instruction::SetSoundTimerToRegisterValue(5)));
    assert_eq!(
        Instruction::from_opcode(0xF529),
        Ok(Instruction::SetIndexRegisterToSpriteForRegister(5))
    );
    assert_eq!(
        Instruction::from_opcode(0xF533),
        Ok(Instruction::StoreBinaryCodedDecimalAtIndexRegisterValue(5))
    );
    assert_eq!(Instruction::from_opcode(0xF51E), Ok(Instruction::AddRegisterToIndexRegister(5)));
    assert_eq!(
        Instruction::from_opcode(0xF555),
        Ok(Instruction::DumpRegistersToMemoryAtIndexRegister(5))
    );
    assert_eq!(
        Instruction::from_opcode(0xF565),
        Ok(Instruction::LoadMemoryToRegistersAtIndexRegister(5))
    );
}

#[test]
fn rejects_unrecognized_opcodes_with_their_value() {
    for opcode in [
        0x0000u16, 0x00E1, 0x00EF, 0x01E0, 0x0FFF, 0x5121, 0x512F, 0x8AB8, 0x8ABD, 0x8ABF, 0x9EF1,
        0xE49F, 0xE4A0, 0xE000, 0xF000, 0xF508, 0xF516, 0xF51F, 0xF534, 0xF556, 0xF566, 0xFFFF,
    ] {
        assert_eq!(Instruction::from_opcode(opcode), Err(Error::UnknownOpcode(opcode)));
    }
}

#[test]
fn counts_recognized_opcodes() {
    let mut recognized: u32 = 0;
    for opcode in 0..=0xFFFFu16 {
        if Instruction::from_opcode(opcode).is_ok() {
            recognized += 1;
        }
    }
    // 2 fixed, ten families that take every operand, two that take a zero
    // last digit, nine ALU operations, two key tests, eight 0xF operations.
    let expected: u32 = 2 + 10 * 4096 + 2 * 256 + 9 * 256 + 2 * 16 + 8 * 16;
    assert_eq!(recognized, expected);
}

#[test]
fn encoding_round_trips_every_opcode() {
    for opcode in 0..=0xFFFFu16 {
        match Instruction::from_opcode(opcode) {
            Ok(instruction) => {
                let expected = match instruction {
                    Instruction::ShiftRegisterBitsRight(_) | Instruction::ShiftRegisterBitsLeft(_) => {
                        opcode & 0xFF0F
                    }
                    _ => opcode,
                };
                let encoded = instruction.to_opcode();
                assert_eq!(encoded, expected);
                assert_eq!(Instruction::from_opcode(encoded), Ok(instruction));
            }
            Err(error) => assert_eq!(error, Error::UnknownOpcode(opcode)),
        }
    }
}

#[test]
fn encodes_instructions() {
    assert_eq!(Instruction::ClearScreen.to_opcode(), 0x00E0);
    assert_eq!(Instruction::ReturnFromSubroutine.to_opcode(), 0x00EE);
    assert_eq!(Instruction::Jump(0x200).to_opcode(), 0x1200);
    assert_eq!(Instruction::SetRegisterToValue(3, 0x7A).to_opcode(), 0x637A);
    assert_eq!(Instruction::DrawSprite(1, 2, 15).to_opcode(), 0xD12F);
    assert_eq!(Instruction::ShiftRegisterBitsLeft(9).to_opcode(), 0x890E);
    assert_eq!(Instruction::LoadMemoryToRegistersAtIndexRegister(15).to_opcode(), 0xFF65);
}
