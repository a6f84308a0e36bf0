//! The instruction set and its 16-bit encoding.
//!
//! An opcode is read as four hexadecimal digits, most significant first. The
//! first digit selects a family; the others hold a register index `x`, a
//! second register index `y`, a low digit `n`, or are read together as a byte
//! `kk` (low two digits) or an address `nnn` (low three digits).

use vstd::prelude::*;
use vstd::arithmetic::div_mod::lemma_fundamental_div_mod_converse;
use crate::Error;

verus! {

/// A decoded instruction with exactly the operands it needs.
#[derive(Debug, Clone, Copy, PartialEq, Eq, Structural)]
pub enum Instruction {
    /// 00E0 - clear screen
    ClearScreen,
    /// 00EE - return from subroutine
    ReturnFromSubroutine,
    /// 1NNN - jump to NNN
    Jump(u16),
    /// 2NNN - call subroutine at NNN
    Call(u16),
    /// 3XNN - skip next if VX equals NN
    SkipIfEqualByte(usize, u8),
    /// 4XNN - skip next if VX does not equal NN
    SkipIfNotEqualByte(usize, u8),
    /// 5XY0 - skip next if VX equals VY
    SkipIfRegistersEqual(usize, usize),
    /// 6XNN - set VX to NN
    SetRegisterToValue(usize, u8),
    /// 7XNN - add NN to VX
    AddToRegister(usize, u8),
    /// 8XY0 - set VX to value of VY
    SetRegisterToRegisterValue(usize, usize),
    /// 8XY1 - set VX | VY
    RegistersBitwiseOr(usize, usize),
    /// 8XY2 - set VX & VY
    RegistersBitwiseAnd(usize, usize),
    /// 8XY3 - set VX ^ VY
    RegistersBitwiseXor(usize, usize),
    /// 8XY4 - add VY to VX (with VF as overflow control)
    RegistersSumWithOverflow(usize, usize),
    /// 8XY5 - VX = VX - VY (with VF as overflow control)
    SubtractRegisterFromRegisterValue(usize, usize),
    /// 8XY6 - VX >>= 1, LSB stored in VF
    ShiftRegisterBitsRight(usize),
    /// 8XY7 - VX = VY - VX (with VF as overflow control)
    SubtractRegisterValueFromRegister(usize, usize),
    /// 8XYE - VX <<= 1 (with VF as overflow control)
    ShiftRegisterBitsLeft(usize),
    /// 9XY0 - skip next if VX does not equal VY
    SkipIfRegistersNotEqual(usize, usize),
    /// ANNN - set I to NNN
    SetIndexRegisterToValue(u16),
    /// BNNN - jump to V0 + NNN
    JumpByValue(u16),
    /// CXNN - set VX to rand(0, 255) & NN
    SetRegisterToRandAndValue(usize, u8),
    /// DXYN - draw a sprite
    DrawSprite(usize, usize, u8),
    /// EX9E - skip next if key == VX
    SkipIfKeyEqualsRegister(usize),
    /// EXA1 - skip next if key != VX
    SkipIfKeyNotEqualsRegister(usize),
    /// FX07 - set VX to delay timer value
    SetRegisterToDelayTimerValue(usize),
    /// FX15 - set delay timer to VX
    SetDelayTimerToRegisterValue(usize),
    /// FX18 - set sound timer to VX
    SetSoundTimerToRegisterValue(usize),
    /// FX29 - set I to location of sprite for character in VX
    SetIndexRegisterToSpriteForRegister(usize),
    /// FX33 - store binary coded decimal at memory under I(I+1)(I+2)
    StoreBinaryCodedDecimalAtIndexRegisterValue(usize),
    /// FX1E - add VX to I (don't consider overflow)
    AddRegisterToIndexRegister(usize),
    /// FX55 - dump registers V0 to VX in memory, starting from I
    DumpRegistersToMemoryAtIndexRegister(usize),
    /// FX65 - load memory starting from I into V0 to VX
    LoadMemoryToRegistersAtIndexRegister(usize),
}

/// The first hexadecimal digit of an opcode.
pub open spec fn family(opcode: u16) -> int {
    opcode as int / 0x1000
}

/// The second hexadecimal digit of an opcode.
pub open spec fn x_field(opcode: u16) -> int {
    (opcode as int / 0x100) % 0x10
}

/// The third hexadecimal digit of an opcode.
pub open spec fn y_field(opcode: u16) -> int {
    (opcode as int / 0x10) % 0x10
}

/// The last hexadecimal digit of an opcode.
pub open spec fn n_field(opcode: u16) -> int {
    opcode as int % 0x10
}

/// The low byte of an opcode.
pub open spec fn byte_field(opcode: u16) -> int {
    opcode as int % 0x100
}

/// The low twelve bits of an opcode.
pub open spec fn address_field(opcode: u16) -> int {
    opcode as int % 0x1000
}

/// The opcode with the given four hexadecimal digits.
pub open spec fn pack(f: int, x: int, y: int, n: int) -> int {
    f * 0x1000 + x * 0x100 + y * 0x10 + n
}

/// Whether an opcode matches one of the instruction patterns.
pub open spec fn recognized(opcode: u16) -> bool {
    let f = family(opcode);
    let n = n_field(opcode);
    let kk = byte_field(opcode);
    if f == 0x0 {
        opcode == 0x00E0 || opcode == 0x00EE
    } else if f == 0x5 || f == 0x9 {
        n == 0
    } else if f == 0x8 {
        n <= 7 || n == 0xE
    } else if f == 0xE {
        kk == 0x9E || kk == 0xA1
    } else if f == 0xF {
        kk == 0x07 || kk == 0x15 || kk == 0x18 || kk == 0x1E || kk == 0x29 || kk == 0x33
            || kk == 0x55 || kk == 0x65
    } else {
        true
    }
}

/// The instruction that a recognized opcode stands for.
pub open spec fn instruction_of(opcode: u16) -> Instruction
    recommends
        recognized(opcode),
{
    let f = family(opcode);
    let x = x_field(opcode) as usize;
    let y = y_field(opcode) as usize;
    let n = n_field(opcode);
    let kk = byte_field(opcode);
    let nnn = address_field(opcode) as u16;
    if f == 0x0 {
        if opcode == 0x00E0 {
            Instruction::ClearScreen
        } else {
            Instruction::ReturnFromSubroutine
        }
    } else if f == 0x1 {
        Instruction::Jump(nnn)
    } else if f == 0x2 {
        Instruction::Call(nnn)
    } else if f == 0x3 {
        Instruction::SkipIfEqualByte(x, kk as u8)
    } else if f == 0x4 {
        Instruction::SkipIfNotEqualByte(x, kk as u8)
    } else if f == 0x5 {
        Instruction::SkipIfRegistersEqual(x, y)
    } else if f == 0x6 {
        Instruction::SetRegisterToValue(x, kk as u8)
    } else if f == 0x7 {
        Instruction::AddToRegister(x, kk as u8)
    } else if f == 0x8 {
        if n == 0x0 {
            Instruction::SetRegisterToRegisterValue(x, y)
        } else if n == 0x1 {
            Instruction::RegistersBitwiseOr(x, y)
        } else if n == 0x2 {
            Instruction::RegistersBitwiseAnd(x, y)
        } else if n == 0x3 {
            Instruction::RegistersBitwiseXor(x, y)
        } else if n == 0x4 {
            Instruction::RegistersSumWithOverflow(x, y)
        } else if n == 0x5 {
            Instruction::SubtractRegisterFromRegisterValue(x, y)
        } else if n == 0x6 {
            Instruction::ShiftRegisterBitsRight(x)
        } else if n == 0x7 {
            Instruction::SubtractRegisterValueFromRegister(x, y)
        } else {
            Instruction::ShiftRegisterBitsLeft(x)
        }
    } else if f == 0x9 {
        Instruction::SkipIfRegistersNotEqual(x, y)
    } else if f == 0xA {
        Instruction::SetIndexRegisterToValue(nnn)
    } else if f == 0xB {
        Instruction::JumpByValue(nnn)
    } else if f == 0xC {
        Instruction::SetRegisterToRandAndValue(x, kk as u8)
    } else if f == 0xD {
        Instruction::DrawSprite(x, y, n as u8)
    } else if f == 0xE {
        if kk == 0x9E {
            Instruction::SkipIfKeyEqualsRegister(x)
        } else {
            Instruction::SkipIfKeyNotEqualsRegister(x)
        }
    } else {
        if kk == 0x07 {
            Instruction::SetRegisterToDelayTimerValue(x)
        } else if kk == 0x15 {
            Instruction::SetDelayTimerToRegisterValue(x)
        } else if kk == 0x18 {
            Instruction::SetSoundTimerToRegisterValue(x)
        } else if kk == 0x1E {
            Instruction::AddRegisterToIndexRegister(x)
        } else if kk == 0x29 {
            Instruction::SetIndexRegisterToSpriteForRegister(x)
        } else if kk == 0x33 {
            Instruction::StoreBinaryCodedDecimalAtIndexRegisterValue(x)
        } else if kk == 0x55 {
            Instruction::DumpRegistersToMemoryAtIndexRegister(x)
        } else {
            Instruction::LoadMemoryToRegistersAtIndexRegister(x)
        }
    }
}

/// What decoding an opcode yields: the instruction of a recognized opcode,
/// and otherwise an error that carries the opcode itself.
pub open spec fn decode(opcode: u16) -> Result<Instruction, Error> {
    if recognized(opcode) {
        Ok(instruction_of(opcode))
    } else {
        Err(Error::UnknownOpcode(opcode))
    }
}

/// The opcode that `encoding` yields for a recognized opcode: the opcode
/// itself, except that the two shifts, which ignore their third digit, come
/// back with that digit cleared.
pub open spec fn canonical(opcode: u16) -> int {
    if family(opcode) == 0x8 && (n_field(opcode) == 0x6 || n_field(opcode) == 0xE) {
        opcode - y_field(opcode) * 0x10
    } else {
        opcode as int
    }
}

impl Instruction {
    /// Whether every operand fits its field: register indices below 16,
    /// addresses below 4096, sprite heights below 16.
    pub open spec fn wf(self) -> bool {
        match self {
            Instruction::ClearScreen | Instruction::ReturnFromSubroutine => true,
            Instruction::Jump(nnn)
            | Instruction::Call(nnn)
            | Instruction::SetIndexRegisterToValue(nnn)
            | Instruction::JumpByValue(nnn) => nnn < 0x1000,
            Instruction::SkipIfEqualByte(x, _)
            | Instruction::SkipIfNotEqualByte(x, _)
            | Instruction::SetRegisterToValue(x, _)
            | Instruction::AddToRegister(x, _)
            | Instruction::SetRegisterToRandAndValue(x, _) => x < 16,
            Instruction::SkipIfRegistersEqual(x, y)
            | Instruction::SetRegisterToRegisterValue(x, y)
            | Instruction::RegistersBitwiseOr(x, y)
            | Instruction::RegistersBitwiseAnd(x, y)
            | Instruction::RegistersBitwiseXor(x, y)
            | Instruction::RegistersSumWithOverflow(x, y)
            | Instruction::SubtractRegisterFromRegisterValue(x, y)
            | Instruction::SubtractRegisterValueFromRegister(x, y)
            | Instruction::SkipIfRegistersNotEqual(x, y) => x < 16 && y < 16,
            Instruction::DrawSprite(x, y, n) => x < 16 && y < 16 && n < 16,
            Instruction::ShiftRegisterBitsRight(x)
            | Instruction::ShiftRegisterBitsLeft(x)
            | Instruction::SkipIfKeyEqualsRegister(x)
            | Instruction::SkipIfKeyNotEqualsRegister(x)
            | Instruction::SetRegisterToDelayTimerValue(x)
            | Instruction::SetDelayTimerToRegisterValue(x)
            | Instruction::SetSoundTimerToRegisterValue(x)
            | Instruction::SetIndexRegisterToSpriteForRegister(x)
            | Instruction::StoreBinaryCodedDecimalAtIndexRegisterValue(x)
            | Instruction::AddRegisterToIndexRegister(x)
            | Instruction::DumpRegistersToMemoryAtIndexRegister(x)
            | Instruction::LoadMemoryToRegistersAtIndexRegister(x) => x < 16,
        }
    }

    /// The opcode of a well-formed instruction.
    pub open spec fn encoding(self) -> int
        recommends
            self.wf(),
    {
        match self {
            Instruction::ClearScreen => 0x00E0,
            Instruction::ReturnFromSubroutine => 0x00EE,
            Instruction::Jump(nnn) => 0x1000 + nnn,
            Instruction::Call(nnn) => 0x2000 + nnn,
            Instruction::SkipIfEqualByte(x, kk) => 0x3000 + x * 0x100 + kk,
            Instruction::SkipIfNotEqualByte(x, kk) => 0x4000 + x * 0x100 + kk,
            Instruction::SkipIfRegistersEqual(x, y) => pack(0x5, x as int, y as int, 0x0),
            Instruction::SetRegisterToValue(x, kk) => 0x6000 + x * 0x100 + kk,
            Instruction::AddToRegister(x, kk) => 0x7000 + x * 0x100 + kk,
            Instruction::SetRegisterToRegisterValue(x, y) => pack(0x8, x as int, y as int, 0x0),
            Instruction::RegistersBitwiseOr(x, y) => pack(0x8, x as int, y as int, 0x1),
            Instruction::RegistersBitwiseAnd(x, y) => pack(0x8, x as int, y as int, 0x2),
            Instruction::RegistersBitwiseXor(x, y) => pack(0x8, x as int, y as int, 0x3),
            Instruction::RegistersSumWithOverflow(x, y) => pack(0x8, x as int, y as int, 0x4),
            Instruction::SubtractRegisterFromRegisterValue(x, y) => pack(
                0x8,
                x as int,
                y as int,
                0x5,
            ),
            Instruction::ShiftRegisterBitsRight(x) => pack(0x8, x as int, 0x0, 0x6),
            Instruction::SubtractRegisterValueFromRegister(x, y) => pack(
                0x8,
                x as int,
                y as int,
                0x7,
            ),
            Instruction::ShiftRegisterBitsLeft(x) => pack(0x8, x as int, 0x0, 0xE),
            Instruction::SkipIfRegistersNotEqual(x, y) => pack(0x9, x as int, y as int, 0x0),
            Instruction::SetIndexRegisterToValue(nnn) => 0xA000 + nnn,
            Instruction::JumpByValue(nnn) => 0xB000 + nnn,
            Instruction::SetRegisterToRandAndValue(x, kk) => 0xC000 + x * 0x100 + kk,
            Instruction::DrawSprite(x, y, n) => pack(0xD, x as int, y as int, n as int),
            Instruction::SkipIfKeyEqualsRegister(x) => 0xE09E + x * 0x100,
            Instruction::SkipIfKeyNotEqualsRegister(x) => 0xE0A1 + x * 0x100,
            Instruction::SetRegisterToDelayTimerValue(x) => 0xF007 + x * 0x100,
            Instruction::SetDelayTimerToRegisterValue(x) => 0xF015 + x * 0x100,
            Instruction::SetSoundTimerToRegisterValue(x) => 0xF018 + x * 0x100,
            Instruction::SetIndexRegisterToSpriteForRegister(x) => 0xF029 + x * 0x100,
            Instruction::StoreBinaryCodedDecimalAtIndexRegisterValue(x) => 0xF033 + x * 0x100,
            Instruction::AddRegisterToIndexRegister(x) => 0xF01E + x * 0x100,
            Instruction::DumpRegistersToMemoryAtIndexRegister(x) => 0xF055 + x * 0x100,
            Instruction::LoadMemoryToRegistersAtIndexRegister(x) => 0xF065 + x * 0x100,
        }
    }

    /// Decodes a 16-bit opcode.
    ///
    /// Succeeds exactly on the recognized opcodes; every other value is
    /// reported back unchanged inside [`Error::UnknownOpcode`].
    pub fn from_opcode(opcode: u16) -> (r: Result<Instruction, Error>)
        ensures
            r == decode(opcode),
            r is Ok <==> recognized(opcode),
            r matches Ok(i) ==> i.wf(),
            r is Err ==> r == Err::<Instruction, Error>(Error::UnknownOpcode(opcode)),
    {
        let n1: usize = ((opcode >> 12) & 0xF) as usize;
        let n2: usize = ((opcode >> 8) & 0xF) as usize;
        let n3: usize = ((opcode >> 4) & 0xF) as usize;
        let n4: usize = (opcode & 0xF) as usize;
        let address: u16 = opcode & 0x0FFF;
        let byte_value: u8 = (opcode & 0x00FF) as u8;
        proof {
            lemma_fields_by_bits(opcode);
        }

        match (n1, n2, n3, n4) {
            (0, 0, 0xE, 0) => Ok(Instruction::ClearScreen),
            (0, 0, 0xE, 0xE) => Ok(Instruction::ReturnFromSubroutine),
            (1, _, _, _) => Ok(Instruction::Jump(address)),
            (2, _, _, _) => Ok(Instruction::Call(address)),
            (3, _, _, _) => Ok(Instruction::SkipIfEqualByte(n2, byte_value)),
            (4, _, _, _) => Ok(Instruction::SkipIfNotEqualByte(n2, byte_value)),
            (5, _, _, 0) => Ok(Instruction::SkipIfRegistersEqual(n2, n3)),
            (6, _, _, _) => Ok(Instruction::SetRegisterToValue(n2, byte_value)),
            (7, _, _, _) => Ok(Instruction::AddToRegister(n2, byte_value)),
            (8, _, _, 0) => Ok(Instruction::SetRegisterToRegisterValue(n2, n3)),
            (8, _, _, 1) => Ok(Instruction::RegistersBitwiseOr(n2, n3)),
            (8, _, _, 2) => Ok(Instruction::RegistersBitwiseAnd(n2, n3)),
            (8, _, _, 3) => Ok(Instruction::RegistersBitwiseXor(n2, n3)),
            (8, _, _, 4) => Ok(Instruction::RegistersSumWithOverflow(n2, n3)),
            (8, _, _, 5) => Ok(Instruction::SubtractRegisterFromRegisterValue(n2, n3)),
            (8, _, _, 6) => Ok(Instruction::ShiftRegisterBitsRight(n2)),
            (8, _, _, 7) => Ok(Instruction::SubtractRegisterValueFromRegister(n2, n3)),
            (8, _, _, 0xE) => Ok(Instruction::ShiftRegisterBitsLeft(n2)),
            (9, _, _, 0) => Ok(Instruction::SkipIfRegistersNotEqual(n2, n3)),
            (0xA, _, _, _) => Ok(Instruction::SetIndexRegisterToValue(address)),
            (0xB, _, _, _) => Ok(Instruction::JumpByValue(address)),
            (0xC, _, _, _) => Ok(Instruction::SetRegisterToRandAndValue(n2, byte_value)),
            (0xD, _, _, _) => Ok(Instruction::DrawSprite(n2, n3, n4 as u8)),
            (0xE, _, 9, 0xE) => Ok(Instruction::SkipIfKeyEqualsRegister(n2)),
            (0xE, _, 0xA, 1) => Ok(Instruction::SkipIfKeyNotEqualsRegister(n2)),
            (0xF, _, 0, 7) => Ok(Instruction::SetRegisterToDelayTimerValue(n2)),
            (0xF, _, 1, 5) => Ok(Instruction::SetDelayTimerToRegisterValue(n2)),
            (0xF, _, 1, 8) => Ok(Instruction::SetSoundTimerToRegisterValue(n2)),
            (0xF, _, 2, 9) => Ok(Instruction::SetIndexRegisterToSpriteForRegister(n2)),
            (0xF, _, 3, 3) => Ok(Instruction::StoreBinaryCodedDecimalAtIndexRegisterValue(n2)),
            (0xF, _, 1, 0xE) => Ok(Instruction::AddRegisterToIndexRegister(n2)),
            (0xF, _, 5, 5) => Ok(Instruction::DumpRegistersToMemoryAtIndexRegister(n2)),
            (0xF, _, 6, 5) => Ok(Instruction::LoadMemoryToRegistersAtIndexRegister(n2)),
            (_, _, _, _) => Err(Error::UnknownOpcode(opcode)),
        }
    }

    /// Encodes a well-formed instruction as its opcode.
    pub fn to_opcode(&self) -> (opcode: u16)
        requires
            self.wf(),
        ensures
            opcode == self.encoding(),
    {
        match *self {
            Instruction::ClearScreen => 0x00E0,
            Instruction::ReturnFromSubroutine => 0x00EE,
            Instruction::Jump(nnn) => 0x1000 + nnn,
            Instruction::Call(nnn) => 0x2000 + nnn,
            Instruction::SkipIfEqualByte(x, kk) => with_byte(0x3, x, kk),
            Instruction::SkipIfNotEqualByte(x, kk) => with_byte(0x4, x, kk),
            Instruction::SkipIfRegistersEqual(x, y) => with_digits(0x5, x, y, 0x0),
            Instruction::SetRegisterToValue(x, kk) => with_byte(0x6, x, kk),
            Instruction::AddToRegister(x, kk) => with_byte(0x7, x, kk),
            Instruction::SetRegisterToRegisterValue(x, y) => with_digits(0x8, x, y, 0x0),
            Instruction::RegistersBitwiseOr(x, y) => with_digits(0x8, x, y, 0x1),
            Instruction::RegistersBitwiseAnd(x, y) => with_digits(0x8, x, y, 0x2),
            Instruction::RegistersBitwiseXor(x, y) => with_digits(0x8, x, y, 0x3),
            Instruction::RegistersSumWithOverflow(x, y) => with_digits(0x8, x, y, 0x4),
            Instruction::SubtractRegisterFromRegisterValue(x, y) => with_digits(0x8, x, y, 0x5),
            Instruction::ShiftRegisterBitsRight(x) => with_digits(0x8, x, 0x0, 0x6),
            Instruction::SubtractRegisterValueFromRegister(x, y) => with_digits(0x8, x, y, 0x7),
            Instruction::ShiftRegisterBitsLeft(x) => with_digits(0x8, x, 0x0, 0xE),
            Instruction::SkipIfRegistersNotEqual(x, y) => with_digits(0x9, x, y, 0x0),
            Instruction::SetIndexRegisterToValue(nnn) => 0xA000 + nnn,
            Instruction::JumpByValue(nnn) => 0xB000 + nnn,
            Instruction::SetRegisterToRandAndValue(x, kk) => with_byte(0xC, x, kk),
            Instruction::DrawSprite(x, y, n) => with_digits(0xD, x, y, n),
            Instruction::SkipIfKeyEqualsRegister(x) => with_byte(0xE, x, 0x9E),
            Instruction::SkipIfKeyNotEqualsRegister(x) => with_byte(0xE, x, 0xA1),
            Instruction::SetRegisterToDelayTimerValue(x) => with_byte(0xF, x, 0x07),
            Instruction::SetDelayTimerToRegisterValue(x) => with_byte(0xF, x, 0x15),
            Instruction::SetSoundTimerToRegisterValue(x) => with_byte(0xF, x, 0x18),
            Instruction::SetIndexRegisterToSpriteForRegister(x) => with_byte(0xF, x, 0x29),
            Instruction::StoreBinaryCodedDecimalAtIndexRegisterValue(x) => with_byte(0xF, x, 0x33),
            Instruction::AddRegisterToIndexRegister(x) => with_byte(0xF, x, 0x1E),
            Instruction::DumpRegistersToMemoryAtIndexRegister(x) => with_byte(0xF, x, 0x55),
            Instruction::LoadMemoryToRegistersAtIndexRegister(x) => with_byte(0xF, x, 0x65),
        }
    }
}

/// Assembles an opcode from a family digit, a register index and a byte.
fn with_byte(f: u16, x: usize, kk: u8) -> (opcode: u16)
    requires
        f < 16,
        x < 16,
    ensures
        opcode == f * 0x1000 + x * 0x100 + kk,
{
    f * 0x1000 + (x as u16) * 0x100 + kk as u16
}

/// Assembles an opcode from its four hexadecimal digits.
fn with_digits(f: u16, x: usize, y: usize, n: u8) -> (opcode: u16)
    requires
        f < 16,
        x < 16,
        y < 16,
        n < 16,
    ensures
        opcode == pack(f as int, x as int, y as int, n as int),
{
    f * 0x1000 + (x as u16) * 0x100 + (y as u16) * 0x10 + n as u16
}

/// Shifting and masking an opcode reads off its hexadecimal digits.
proof fn lemma_fields_by_bits(opcode: u16)
    ensures
        (opcode >> 12) & 0xF == family(opcode),
        (opcode >> 8) & 0xF == x_field(opcode),
        (opcode >> 4) & 0xF == y_field(opcode),
        opcode & 0xF == n_field(opcode),
        opcode & 0x00FF == byte_field(opcode),
        opcode & 0x0FFF == address_field(opcode),
        byte_field(opcode) == y_field(opcode) * 0x10 + n_field(opcode),
        opcode == pack(family(opcode), x_field(opcode), y_field(opcode), n_field(opcode)),
{
    assert((opcode >> 12) & 0xF == opcode / 0x1000) by (bit_vector);
    assert((opcode >> 8) & 0xF == (opcode / 0x100) % 0x10) by (bit_vector);
    assert((opcode >> 4) & 0xF == (opcode / 0x10) % 0x10) by (bit_vector);
    assert(opcode & 0xF == opcode % 0x10) by (bit_vector);
    assert(opcode & 0x00FF == opcode % 0x100) by (bit_vector);
    assert(opcode & 0x0FFF == opcode % 0x1000) by (bit_vector);
}

/// The hexadecimal digits of an opcode assembled from four digits.
proof fn lemma_digits_of_pack(f: int, x: int, y: int, n: int)
    requires
        0 <= f < 16,
        0 <= x < 16,
        0 <= y < 16,
        0 <= n < 16,
    ensures
        0 <= pack(f, x, y, n) <= u16::MAX,
        family(pack(f, x, y, n) as u16) == f,
        x_field(pack(f, x, y, n) as u16) == x,
        y_field(pack(f, x, y, n) as u16) == y,
        n_field(pack(f, x, y, n) as u16) == n,
        byte_field(pack(f, x, y, n) as u16) == y * 0x10 + n,
        address_field(pack(f, x, y, n) as u16) == x * 0x100 + y * 0x10 + n,
{
    let opcode = pack(f, x, y, n);
    lemma_fundamental_div_mod_converse(opcode, 0x1000, f, x * 0x100 + y * 0x10 + n);
    lemma_fundamental_div_mod_converse(opcode, 0x100, f * 0x10 + x, y * 0x10 + n);
    lemma_fundamental_div_mod_converse(f * 0x10 + x, 0x10, f, x);
    lemma_fundamental_div_mod_converse(opcode, 0x10, f * 0x100 + x * 0x10 + y, n);
    lemma_fundamental_div_mod_converse(f * 0x100 + x * 0x10 + y, 0x10, f * 0x10 + x, y);
}

/// Decoding inverts encoding: a well-formed instruction is read back from
/// its opcode unchanged.
pub proof fn lemma_decode_inverts_encoding(instruction: Instruction)
    requires
        instruction.wf(),
    ensures
        0 <= instruction.encoding() <= u16::MAX,
        decode(instruction.encoding() as u16) == Ok::<Instruction, Error>(instruction),
{
    match instruction {
        Instruction::ClearScreen => {
            lemma_digits_of_pack(0x0, 0x0, 0xE, 0x0);
        },
        Instruction::ReturnFromSubroutine => {
            lemma_digits_of_pack(0x0, 0x0, 0xE, 0xE);
        },
        Instruction::Jump(nnn) => {
            lemma_address_form(0x1, nnn);
        },
        Instruction::Call(nnn) => {
            lemma_address_form(0x2, nnn);
        },
        Instruction::SkipIfEqualByte(x, kk) => {
            lemma_byte_form(0x3, x as int, kk);
        },
        Instruction::SkipIfNotEqualByte(x, kk) => {
            lemma_byte_form(0x4, x as int, kk);
        },
        Instruction::SkipIfRegistersEqual(x, y) => {
            lemma_digits_of_pack(0x5, x as int, y as int, 0x0);
        },
        Instruction::SetRegisterToValue(x, kk) => {
            lemma_byte_form(0x6, x as int, kk);
        },
        Instruction::AddToRegister(x, kk) => {
            lemma_byte_form(0x7, x as int, kk);
        },
        Instruction::SetRegisterToRegisterValue(x, y) => {
            lemma_digits_of_pack(0x8, x as int, y as int, 0x0);
        },
        Instruction::RegistersBitwiseOr(x, y) => {
            lemma_digits_of_pack(0x8, x as int, y as int, 0x1);
        },
        Instruction::RegistersBitwiseAnd(x, y) => {
            lemma_digits_of_pack(0x8, x as int, y as int, 0x2);
        },
        Instruction::RegistersBitwiseXor(x, y) => {
            lemma_digits_of_pack(0x8, x as int, y as int, 0x3);
        },
        Instruction::RegistersSumWithOverflow(x, y) => {
            lemma_digits_of_pack(0x8, x as int, y as int, 0x4);
        },
        Instruction::SubtractRegisterFromRegisterValue(x, y) => {
            lemma_digits_of_pack(0x8, x as int, y as int, 0x5);
        },
        Instruction::ShiftRegisterBitsRight(x) => {
            lemma_digits_of_pack(0x8, x as int, 0x0, 0x6);
        },
        Instruction::SubtractRegisterValueFromRegister(x, y) => {
            lemma_digits_of_pack(0x8, x as int, y as int, 0x7);
        },
        Instruction::ShiftRegisterBitsLeft(x) => {
            lemma_digits_of_pack(0x8, x as int, 0x0, 0xE);
        },
        Instruction::SkipIfRegistersNotEqual(x, y) => {
            lemma_digits_of_pack(0x9, x as int, y as int, 0x0);
        },
        Instruction::SetIndexRegisterToValue(nnn) => {
            lemma_address_form(0xA, nnn);
        },
        Instruction::JumpByValue(nnn) => {
            lemma_address_form(0xB, nnn);
        },
        Instruction::SetRegisterToRandAndValue(x, kk) => {
            lemma_byte_form(0xC, x as int, kk);
        },
        Instruction::DrawSprite(x, y, n) => {
            lemma_digits_of_pack(0xD, x as int, y as int, n as int);
        },
        Instruction::SkipIfKeyEqualsRegister(x) => {
            lemma_byte_form(0xE, x as int, 0x9E);
        },
        Instruction::SkipIfKeyNotEqualsRegister(x) => {
            lemma_byte_form(0xE, x as int, 0xA1);
        },
        Instruction::SetRegisterToDelayTimerValue(x) => {
            lemma_byte_form(0xF, x as int, 0x07);
        },
        Instruction::SetDelayTimerToRegisterValue(x) => {
            lemma_byte_form(0xF, x as int, 0x15);
        },
        Instruction::SetSoundTimerToRegisterValue(x) => {
            lemma_byte_form(0xF, x as int, 0x18);
        },
        Instruction::SetIndexRegisterToSpriteForRegister(x) => {
            lemma_byte_form(0xF, x as int, 0x29);
        },
        Instruction::StoreBinaryCodedDecimalAtIndexRegisterValue(x) => {
            lemma_byte_form(0xF, x as int, 0x33);
        },
        Instruction::AddRegisterToIndexRegister(x) => {
            lemma_byte_form(0xF, x as int, 0x1E);
        },
        Instruction::DumpRegistersToMemoryAtIndexRegister(x) => {
            lemma_byte_form(0xF, x as int, 0x55);
        },
        Instruction::LoadMemoryToRegistersAtIndexRegister(x) => {
            lemma_byte_form(0xF, x as int, 0x65);
        },
    }
}

/// The fields of an opcode assembled from a family digit and an address.
proof fn lemma_address_form(f: int, nnn: u16)
    requires
        0 <= f < 16,
        nnn < 0x1000,
    ensures
        0 <= f * 0x1000 + nnn <= u16::MAX,
        family((f * 0x1000 + nnn) as u16) == f,
        address_field((f * 0x1000 + nnn) as u16) == nnn,
{
    lemma_fundamental_div_mod_converse(f * 0x1000 + nnn, 0x1000, f, nnn as int);
}

/// The fields of an opcode assembled from a family digit, a register index
/// and a byte.
proof fn lemma_byte_form(f: int, x: int, kk: u8)
    requires
        0 <= f < 16,
        0 <= x < 16,
    ensures
        0 <= f * 0x1000 + x * 0x100 + kk <= u16::MAX,
        family((f * 0x1000 + x * 0x100 + kk) as u16) == f,
        x_field((f * 0x1000 + x * 0x100 + kk) as u16) == x,
        byte_field((f * 0x1000 + x * 0x100 + kk) as u16) == kk,
        n_field((f * 0x1000 + x * 0x100 + kk) as u16) == kk % 0x10,
{
    lemma_digits_of_pack(f, x, kk as int / 0x10, kk as int % 0x10);
}

/// Encoding inverts decoding on the operands an instruction keeps: the
/// instruction of a recognized opcode is well-formed and encodes to the same
/// opcode, up to the digit that the two shifts ignore.
pub proof fn lemma_encoding_inverts_decode(opcode: u16)
    requires
        recognized(opcode),
    ensures
        instruction_of(opcode).wf(),
        0 <= canonical(opcode) <= u16::MAX,
        instruction_of(opcode).encoding() == canonical(opcode),
        decode(canonical(opcode) as u16) == decode(opcode),
{
    lemma_fields_by_bits(opcode);
    let f = family(opcode);
    let x = x_field(opcode);
    let y = y_field(opcode);
    let n = n_field(opcode);
    assert(address_field(opcode) == x * 0x100 + y * 0x10 + n);
    assert(opcode == f * 0x1000 + x * 0x100 + byte_field(opcode));
    if f == 0x8 && (n == 0x6 || n == 0xE) {
        lemma_digits_of_pack(f, x, 0x0, n);
    }
}

/// Decoding fails exactly on the opcodes outside the instruction patterns,
/// and the failure carries the opcode.
pub proof fn lemma_decode_rejects_unrecognized(opcode: u16)
    ensures
        decode(opcode) is Err <==> !recognized(opcode),
        !recognized(opcode) ==> decode(opcode) == Err::<Instruction, Error>(
            Error::UnknownOpcode(opcode),
        ),
{
}

} // verus!
