//! The instruction set: what each 16-bit word means.
//!
//! A word is read as four hexadecimal digits. The first digit selects a family;
//! the others are operands or select a member of the family. Within a family a
//! word that matches no member is `Unimplemented`, so no two members overlap.
use vstd::prelude::*;

verus! {

/// One instruction with its operands. `x` and `y` are register numbers, `nn` is
/// a byte, `addr` a twelve-bit address and `n` a sprite height.
#[derive(Clone, Copy, Debug, PartialEq, Eq, Structural)]
pub enum Instruction {
    /// `00E0`: darken the display.
    ClearScreen,
    /// `00EE`: return from a subroutine.
    Return,
    /// `00NN` other than the two above: a system call, which is ignored.
    Sys,
    /// `1NNN`: jump to `addr`.
    Jump { addr: u16 },
    /// `2NNN`: call the subroutine at `addr`.
    Call { addr: u16 },
    /// `3XNN`: skip the next instruction if register `x` equals `nn`.
    SkipEqImm { x: usize, nn: u8 },
    /// `4XNN`: skip the next instruction if register `x` differs from `nn`.
    SkipNeImm { x: usize, nn: u8 },
    /// `5XY0`: skip the next instruction if registers `x` and `y` are equal.
    SkipEqReg { x: usize, y: usize },
    /// `9XY0`: skip the next instruction if registers `x` and `y` differ.
    SkipNeReg { x: usize, y: usize },
    /// `6XNN`: set register `x` to `nn`.
    LoadImm { x: usize, nn: u8 },
    /// `7XNN`: add `nn` to register `x`, wrapping, without touching the flag.
    AddImm { x: usize, nn: u8 },
    /// `8XY0`: copy register `y` to register `x`.
    Move { x: usize, y: usize },
    /// `8XY1`: bitwise OR of registers `x` and `y` into `x`.
    Or { x: usize, y: usize },
    /// `8XY2`: bitwise AND of registers `x` and `y` into `x`.
    And { x: usize, y: usize },
    /// `8XY3`: bitwise XOR of registers `x` and `y` into `x`.
    Xor { x: usize, y: usize },
    /// `8XY4`: add register `y` to register `x`; the flag tells of a carry.
    AddReg { x: usize, y: usize },
    /// `8XY5`: subtract register `y` from register `x`; the flag is 1 if `x` was
    /// the greater.
    SubReg { x: usize, y: usize },
    /// `8XY6`: shift register `x` right by one; the flag takes the bit shifted out.
    ShiftRight { x: usize },
    /// `8XY7`: set register `x` to register `y` minus register `x`; the flag is 1
    /// if `y` was the greater.
    SubRev { x: usize, y: usize },
    /// `8XYE`: shift register `x` left by one; the flag takes what was the lowest
    /// bit.
    ShiftLeft { x: usize },
    /// `ANNN`: set the index register to `addr`.
    LoadIndex { addr: u16 },
    /// `BNNN`: jump to `addr` plus register 0.
    JumpOffset { addr: u16 },
    /// `CXNN`: set register `x` to a random byte masked with `nn`.
    Random { x: usize, nn: u8 },
    /// `DXYN`: draw the `n`-row sprite at the index register, at the coordinates
    /// held in registers `x` and `y`.
    Draw { x: usize, y: usize, n: u8 },
    /// `EX9E`: skip the next instruction if the key named by register `x` is down.
    SkipKeyPressed { x: usize },
    /// `EXA1`: skip the next instruction if the key named by register `x` is up.
    SkipKeyReleased { x: usize },
    /// `FX07`: copy the delay timer to register `x`.
    ReadDelay { x: usize },
    /// `FX0A`: wait for a key and store its number in register `x`.
    WaitKey { x: usize },
    /// `FX15`: set the delay timer to register `x`.
    SetDelay { x: usize },
    /// `FX18`: set the sound timer to register `x`.
    SetSound { x: usize },
    /// `FX1E`: add register `x` to the index register, wrapping.
    AddIndex { x: usize },
    /// `FX29`: point the index register at the glyph for the digit in register `x`.
    FontGlyph { x: usize },
    /// `FX33`: store the decimal digits of register `x` at the index register.
    StoreBcd { x: usize },
    /// `FX55`: store registers 0 to `x` at the index register.
    StoreRegs { x: usize },
    /// `FX65`: load registers 0 to `x` from the index register.
    LoadRegs { x: usize },
    /// Any other word: nothing happens.
    Unimplemented,
}

impl Instruction {
    /// Register numbers are below 16, addresses below 4096, heights below 16.
    pub open spec fn well_formed(self) -> bool {
        match self {
            Instruction::ClearScreen
            | Instruction::Return
            | Instruction::Sys
            | Instruction::Unimplemented => true,
            Instruction::Jump { addr }
            | Instruction::Call { addr }
            | Instruction::LoadIndex { addr }
            | Instruction::JumpOffset { addr } => addr < 0x1000,
            Instruction::SkipEqImm { x, nn }
            | Instruction::SkipNeImm { x, nn }
            | Instruction::LoadImm { x, nn }
            | Instruction::AddImm { x, nn }
            | Instruction::Random { x, nn } => x < 16,
            Instruction::SkipEqReg { x, y }
            | Instruction::SkipNeReg { x, y }
            | Instruction::Move { x, y }
            | Instruction::Or { x, y }
            | Instruction::And { x, y }
            | Instruction::Xor { x, y }
            | Instruction::AddReg { x, y }
            | Instruction::SubReg { x, y }
            | Instruction::SubRev { x, y } => x < 16 && y < 16,
            Instruction::Draw { x, y, n } => x < 16 && y < 16 && n < 16,
            Instruction::ShiftRight { x }
            | Instruction::ShiftLeft { x }
            | Instruction::SkipKeyPressed { x }
            | Instruction::SkipKeyReleased { x }
            | Instruction::ReadDelay { x }
            | Instruction::WaitKey { x }
            | Instruction::SetDelay { x }
            | Instruction::SetSound { x }
            | Instruction::AddIndex { x }
            | Instruction::FontGlyph { x }
            | Instruction::StoreBcd { x }
            | Instruction::StoreRegs { x }
            | Instruction::LoadRegs { x } => x < 16,
        }
    }
}

/// The hexadecimal digit of `opcode` at `place`, counted from 0 at the least
/// significant end.
pub open spec fn digit(opcode: u16, place: nat) -> int {
    if place == 0 {
        opcode as int % 16
    } else if place == 1 {
        (opcode as int / 0x10) % 16
    } else if place == 2 {
        (opcode as int / 0x100) % 16
    } else {
        (opcode as int / 0x1000) % 16
    }
}

/// The instruction that `opcode` stands for.
pub open spec fn instruction_of(opcode: u16) -> Instruction {
    let family = digit(opcode, 3);
    let x = digit(opcode, 2) as usize;
    let y = digit(opcode, 1) as usize;
    let n = digit(opcode, 0) as u8;
    let nn = (opcode as int % 0x100) as u8;
    let addr: u16 = (opcode as int % 0x1000) as u16;
    if family == 0x0 {
        if x != 0 {
            Instruction::Unimplemented
        } else if nn == 0xE0 {
            Instruction::ClearScreen
        } else if nn == 0xEE {
            Instruction::Return
        } else {
            Instruction::Sys
        }
    } else if family == 0x1 {
        Instruction::Jump { addr }
    } else if family == 0x2 {
        Instruction::Call { addr }
    } else if family == 0x3 {
        Instruction::SkipEqImm { x, nn }
    } else if family == 0x4 {
        Instruction::SkipNeImm { x, nn }
    } else if family == 0x5 {
        if n == 0 {
            Instruction::SkipEqReg { x, y }
        } else {
            Instruction::Unimplemented
        }
    } else if family == 0x6 {
        Instruction::LoadImm { x, nn }
    } else if family == 0x7 {
        Instruction::AddImm { x, nn }
    } else if family == 0x8 {
        if n == 0x0 {
            Instruction::Move { x, y }
        } else if n == 0x1 {
            Instruction::Or { x, y }
        } else if n == 0x2 {
            Instruction::And { x, y }
        } else if n == 0x3 {
            Instruction::Xor { x, y }
        } else if n == 0x4 {
            Instruction::AddReg { x, y }
        } else if n == 0x5 {
            Instruction::SubReg { x, y }
        } else if n == 0x6 {
            Instruction::ShiftRight { x }
        } else if n == 0x7 {
            Instruction::SubRev { x, y }
        } else if n == 0xE {
            Instruction::ShiftLeft { x }
        } else {
            Instruction::Unimplemented
        }
    } else if family == 0x9 {
        if n == 0 {
            Instruction::SkipNeReg { x, y }
        } else {
            Instruction::Unimplemented
        }
    } else if family == 0xA {
        Instruction::LoadIndex { addr }
    } else if family == 0xB {
        Instruction::JumpOffset { addr }
    } else if family == 0xC {
        Instruction::Random { x, nn }
    } else if family == 0xD {
        Instruction::Draw { x, y, n }
    } else if family == 0xE {
        if nn == 0x9E {
            Instruction::SkipKeyPressed { x }
        } else if nn == 0xA1 {
            Instruction::SkipKeyReleased { x }
        } else {
            Instruction::Unimplemented
        }
    } else {
        if nn == 0x07 {
            Instruction::ReadDelay { x }
        } else if nn == 0x0A {
            Instruction::WaitKey { x }
        } else if nn == 0x15 {
            Instruction::SetDelay { x }
        } else if nn == 0x18 {
            Instruction::SetSound { x }
        } else if nn == 0x1E {
            Instruction::AddIndex { x }
        } else if nn == 0x29 {
            Instruction::FontGlyph { x }
        } else if nn == 0x33 {
            Instruction::StoreBcd { x }
        } else if nn == 0x55 {
            Instruction::StoreRegs { x }
        } else if nn == 0x65 {
            Instruction::LoadRegs { x }
        } else {
            Instruction::Unimplemented
        }
    }
}

/// Every word stands for an instruction whose operands are in range.
pub proof fn lemma_decoded_is_well_formed(opcode: u16)
    ensures
        instruction_of(opcode).well_formed(),
{
}

/// Splits `opcode` into its four digits and picks the instruction.
pub fn decode(opcode: u16) -> (instruction: Instruction)
    ensures
        instruction == instruction_of(opcode),
        instruction.well_formed(),
{
    let first_digit: u16 = (opcode & 0xF000) >> 12;
    let second_digit: u16 = (opcode & 0x0F00) >> 8;
    let third_digit: u16 = (opcode & 0x00F0) >> 4;
    let fourth_digit: u16 = opcode & 0x000F;
    let low_byte: u16 = opcode & 0x00FF;
    let addr: u16 = opcode & 0x0FFF;
    assert(first_digit == opcode / 0x1000 && first_digit < 16) by (bit_vector)
        requires
            first_digit == (opcode & 0xF000) >> 12,
    ;
    assert(second_digit == (opcode / 0x100) % 16) by (bit_vector)
        requires
            second_digit == (opcode & 0x0F00) >> 8,
    ;
    assert(third_digit == (opcode / 0x10) % 16) by (bit_vector)
        requires
            third_digit == (opcode & 0x00F0) >> 4,
    ;
    assert(fourth_digit == opcode % 16) by (bit_vector)
        requires
            fourth_digit == opcode & 0x000F,
    ;
    assert(low_byte == opcode % 0x100 && low_byte == third_digit * 16 + fourth_digit) by (bit_vector)
        requires
            low_byte == opcode & 0x00FF,
            third_digit == (opcode & 0x00F0) >> 4,
            fourth_digit == opcode & 0x000F,
    ;
    assert(addr == opcode % 0x1000) by (bit_vector)
        requires
            addr == opcode & 0x0FFF,
    ;
    let x: usize = second_digit as usize;
    let y: usize = third_digit as usize;
    let n: u8 = fourth_digit as u8;
    let nn: u8 = low_byte as u8;
    match (first_digit, second_digit, third_digit, fourth_digit) {
        (0x0, 0x0, 0xE, 0x0) => Instruction::ClearScreen,
        (0x0, 0x0, 0xE, 0xE) => Instruction::Return,
        (0x0, 0x0, _, _) => Instruction::Sys,
        (0x1, _, _, _) => Instruction::Jump { addr },
        (0x2, _, _, _) => Instruction::Call { addr },
        (0x3, _, _, _) => Instruction::SkipEqImm { x, nn },
        (0x4, _, _, _) => Instruction::SkipNeImm { x, nn },
        (0x5, _, _, 0x0) => Instruction::SkipEqReg { x, y },
        (0x9, _, _, 0x0) => Instruction::SkipNeReg { x, y },
        (0x6, _, _, _) => Instruction::LoadImm { x, nn },
        (0x7, _, _, _) => Instruction::AddImm { x, nn },
        (0x8, _, _, 0x0) => Instruction::Move { x, y },
        (0x8, _, _, 0x1) => Instruction::Or { x, y },
        (0x8, _, _, 0x2) => Instruction::And { x, y },
        (0x8, _, _, 0x3) => Instruction::Xor { x, y },
        (0x8, _, _, 0x4) => Instruction::AddReg { x, y },
        (0x8, _, _, 0x5) => Instruction::SubReg { x, y },
        (0x8, _, _, 0x7) => Instruction::SubRev { x, y },
        (0x8, _, _, 0x6) => Instruction::ShiftRight { x },
        (0x8, _, _, 0xE) => Instruction::ShiftLeft { x },
        (0xA, _, _, _) => Instruction::LoadIndex { addr },
        (0xB, _, _, _) => Instruction::JumpOffset { addr },
        (0xC, _, _, _) => Instruction::Random { x, nn },
        (0xD, _, _, _) => Instruction::Draw { x, y, n },
        (0xE, _, 0x9, 0xE) => Instruction::SkipKeyPressed { x },
        (0xE, _, 0xA, 0x1) => Instruction::SkipKeyReleased { x },
        (0xF, _, 0x0, 0x7) => Instruction::ReadDelay { x },
        (0xF, _, 0x0, 0xA) => Instruction::WaitKey { x },
        (0xF, _, 0x1, 0x5) => Instruction::SetDelay { x },
        (0xF, _, 0x1, 0x8) => Instruction::SetSound { x },
        (0xF, _, 0x1, 0xE) => Instruction::AddIndex { x },
        (0xF, _, 0x2, 0x9) => Instruction::FontGlyph { x },
        (0xF, _, 0x3, 0x3) => Instruction::StoreBcd { x },
        (0xF, _, 0x5, 0x5) => Instruction::StoreRegs { x },
        (0xF, _, 0x6, 0x5) => Instruction::LoadRegs { x },
        (_, _, _, _) => Instruction::Unimplemented,
    }
}

} // verus!
