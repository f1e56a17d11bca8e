//! Raw two-byte opcodes and the decoder that turns them into structured
//! instructions.
//!
//! Decoding is pure and total: every possible 16-bit value decodes to some
//! [`Instruction`], possibly [`Instruction::Invalid`], which the engine later
//! rejects. The execution engine and the disassembler share this single
//! decoding step, so they can never disagree about operand extraction.

use vstd::prelude::*;

verus! {

/// One 16-bit instruction word, as the two consecutive memory bytes it is
/// fetched from.
#[derive(Clone, Copy, Debug, PartialEq, Eq, Structural)]
pub struct OpCode {
    pub first: u8,
    pub second: u8,
}

impl OpCode {
    /// The opcode as one 16-bit word, `first` being the high byte.
    pub fn to_u16(&self) -> (r: u16)
        ensures
            r == self.first * 256 + self.second,
    {
        (self.first as u16) * 256 + (self.second as u16)
    }
}

/// A decoded instruction: one variant per operation the ISA defines, plus
/// [`Instruction::Invalid`] for every word whose secondary selector has no
/// defined meaning.
///
/// Operand conventions: `x` and `y` are register indices (always below 16),
/// `kk` an 8-bit immediate, `nnn` a 12-bit address (always below 4096), `n` a
/// 4-bit sprite height. The shift instructions record the unused `y` nibble
/// so that a disassembler can still render it; the engine shifts `Vx` in
/// place.
#[derive(Clone, Copy, Debug, PartialEq, Eq, Structural)]
pub enum Instruction {
    /// `00E0`: clear the framebuffer region.
    Cls,
    /// `00EE`: pop the return address from the call stack into PC.
    Ret,
    /// `0nnn` (other): legacy system call; executed as a no-op.
    Sys { nnn: u16 },
    /// `1nnn`: PC <- nnn.
    Jump { nnn: u16 },
    /// `2nnn`: push PC+2, PC <- nnn.
    Call { nnn: u16 },
    /// `3xkk`: skip the next instruction if Vx == kk.
    SkipEqImm { x: u8, kk: u8 },
    /// `4xkk`: skip the next instruction if Vx != kk.
    SkipNeImm { x: u8, kk: u8 },
    /// `5xy0`: skip the next instruction if Vx == Vy.
    SkipEqReg { x: u8, y: u8 },
    /// `6xkk`: Vx <- kk.
    LoadImm { x: u8, kk: u8 },
    /// `7xkk`: Vx <- Vx + kk, 8-bit wraparound, no flag effect.
    AddImm { x: u8, kk: u8 },
    /// `8xy0`: Vx <- Vy.
    Move { x: u8, y: u8 },
    /// `8xy1`: Vx <- Vx | Vy.
    Or { x: u8, y: u8 },
    /// `8xy2`: Vx <- Vx & Vy.
    And { x: u8, y: u8 },
    /// `8xy3`: Vx <- Vx ^ Vy.
    Xor { x: u8, y: u8 },
    /// `8xy4`: Vx <- Vx + Vy wrapping; VF <- carry.
    Add { x: u8, y: u8 },
    /// `8xy5`: Vx <- Vx - Vy wrapping; VF <- 1 if no borrow.
    Sub { x: u8, y: u8 },
    /// `8xy6`: VF <- least-significant bit of Vx; Vx <- Vx >> 1.
    ShiftRight { x: u8, y: u8 },
    /// `8xy7`: Vx <- Vy - Vx wrapping; VF <- 1 if no borrow.
    SubNeg { x: u8, y: u8 },
    /// `8xyE`: VF <- most-significant bit of Vx; Vx <- Vx << 1 wrapping.
    ShiftLeft { x: u8, y: u8 },
    /// `9xy0`: skip the next instruction if Vx != Vy.
    SkipNeReg { x: u8, y: u8 },
    /// `Annn`: I <- nnn.
    LoadIndex { nnn: u16 },
    /// `Bnnn`: PC <- V0 + nnn.
    JumpV0 { nnn: u16 },
    /// `Cxkk`: Vx <- (uniform random byte) & kk.
    Random { x: u8, kk: u8 },
    /// `Dxyn`: blit an n-row sprite read from I at (Vx, Vy); VF <- collision.
    Draw { x: u8, y: u8, n: u8 },
    /// `Ex9E`: skip the next instruction if key Vx is pressed.
    SkipKeyPressed { x: u8 },
    /// `ExA1`: skip the next instruction if key Vx is not pressed.
    SkipKeyNotPressed { x: u8 },
    /// `Fx07`: Vx <- DT.
    ReadDelay { x: u8 },
    /// `Fx0A`: block until a key is pressed; Vx <- that key's code.
    WaitKey { x: u8 },
    /// `Fx15`: DT <- Vx.
    SetDelay { x: u8 },
    /// `Fx18`: ST <- Vx.
    SetSound { x: u8 },
    /// `Fx1E`: I <- I + Vx, 16-bit wraparound.
    AddIndex { x: u8 },
    /// `Fx29`: I <- font-table base + Vx * 5.
    LoadGlyph { x: u8 },
    /// `Fx33`: memory[I..I+3] <- the three decimal digits of Vx.
    StoreBcd { x: u8 },
    /// `Fx55`: memory[I..I+x+1] <- V0..Vx.
    StoreRegs { x: u8 },
    /// `Fx65`: V0..Vx <- memory[I..I+x+1].
    LoadRegs { x: u8 },
    /// Any word whose secondary selector has no defined meaning.
    Invalid { first: u8, second: u8 },
}

/// What the two bytes at the program counter decode to. The operand fields
/// are nibble selections: with `first = 16*c + x` and `second = 16*y + s`,
/// the class is `c`, the register indices are `x` and `y`, the immediate is
/// `second`, the address is `256*x + second`, and the sprite height is `s`.
pub open spec fn spec_decode(first: u8, second: u8) -> Instruction {
    let c = first / 16;
    let x = first % 16;
    let y = second / 16;
    let s = second % 16;
    let kk = second;
    let nnn = (x * 256 + second) as u16;
    if c == 0x0 {
        if first == 0x00 && second == 0xE0 {
            Instruction::Cls
        } else if first == 0x00 && second == 0xEE {
            Instruction::Ret
        } else {
            Instruction::Sys { nnn }
        }
    } else if c == 0x1 {
        Instruction::Jump { nnn }
    } else if c == 0x2 {
        Instruction::Call { nnn }
    } else if c == 0x3 {
        Instruction::SkipEqImm { x, kk }
    } else if c == 0x4 {
        Instruction::SkipNeImm { x, kk }
    } else if c == 0x5 {
        if s == 0 {
            Instruction::SkipEqReg { x, y }
        } else {
            Instruction::Invalid { first, second }
        }
    } else if c == 0x6 {
        Instruction::LoadImm { x, kk }
    } else if c == 0x7 {
        Instruction::AddImm { x, kk }
    } else if c == 0x8 {
        if s == 0x0 {
            Instruction::Move { x, y }
        } else if s == 0x1 {
            Instruction::Or { x, y }
        } else if s == 0x2 {
            Instruction::And { x, y }
        } else if s == 0x3 {
            Instruction::Xor { x, y }
        } else if s == 0x4 {
            Instruction::Add { x, y }
        } else if s == 0x5 {
            Instruction::Sub { x, y }
        } else if s == 0x6 {
            Instruction::ShiftRight { x, y }
        } else if s == 0x7 {
            Instruction::SubNeg { x, y }
        } else if s == 0xE {
            Instruction::ShiftLeft { x, y }
        } else {
            Instruction::Invalid { first, second }
        }
    } else if c == 0x9 {
        if s == 0 {
            Instruction::SkipNeReg { x, y }
        } else {
            Instruction::Invalid { first, second }
        }
    } else if c == 0xA {
        Instruction::LoadIndex { nnn }
    } else if c == 0xB {
        Instruction::JumpV0 { nnn }
    } else if c == 0xC {
        Instruction::Random { x, kk }
    } else if c == 0xD {
        Instruction::Draw { x, y, n: s }
    } else if c == 0xE {
        if second == 0x9E {
            Instruction::SkipKeyPressed { x }
        } else if second == 0xA1 {
            Instruction::SkipKeyNotPressed { x }
        } else {
            Instruction::Invalid { first, second }
        }
    } else {
        if second == 0x07 {
            Instruction::ReadDelay { x }
        } else if second == 0x0A {
            Instruction::WaitKey { x }
        } else if second == 0x15 {
            Instruction::SetDelay { x }
        } else if second == 0x18 {
            Instruction::SetSound { x }
        } else if second == 0x1E {
            Instruction::AddIndex { x }
        } else if second == 0x29 {
            Instruction::LoadGlyph { x }
        } else if second == 0x33 {
            Instruction::StoreBcd { x }
        } else if second == 0x55 {
            Instruction::StoreRegs { x }
        } else if second == 0x65 {
            Instruction::LoadRegs { x }
        } else {
            Instruction::Invalid { first, second }
        }
    }
}

/// Decode the two bytes of one instruction word.
pub fn decode(first: u8, second: u8) -> (instr: Instruction)
    ensures
        instr == spec_decode(first, second),
{
    let c = first / 16;
    let x = first % 16;
    let y = second / 16;
    let s = second % 16;
    let kk = second;
    let nnn = (x as u16) * 256 + (second as u16);
    match c {
        0x0 => {
            if first == 0x00 && second == 0xE0 {
                Instruction::Cls
            } else if first == 0x00 && second == 0xEE {
                Instruction::Ret
            } else {
                Instruction::Sys { nnn }
            }
        },
        0x1 => Instruction::Jump { nnn },
        0x2 => Instruction::Call { nnn },
        0x3 => Instruction::SkipEqImm { x, kk },
        0x4 => Instruction::SkipNeImm { x, kk },
        0x5 => {
            if s == 0 {
                Instruction::SkipEqReg { x, y }
            } else {
                Instruction::Invalid { first, second }
            }
        },
        0x6 => Instruction::LoadImm { x, kk },
        0x7 => Instruction::AddImm { x, kk },
        0x8 => {
            match s {
                0x0 => Instruction::Move { x, y },
                0x1 => Instruction::Or { x, y },
                0x2 => Instruction::And { x, y },
                0x3 => Instruction::Xor { x, y },
                0x4 => Instruction::Add { x, y },
                0x5 => Instruction::Sub { x, y },
                0x6 => Instruction::ShiftRight { x, y },
                0x7 => Instruction::SubNeg { x, y },
                0xE => Instruction::ShiftLeft { x, y },
                _ => Instruction::Invalid { first, second },
            }
        },
        0x9 => {
            if s == 0 {
                Instruction::SkipNeReg { x, y }
            } else {
                Instruction::Invalid { first, second }
            }
        },
        0xA => Instruction::LoadIndex { nnn },
        0xB => Instruction::JumpV0 { nnn },
        0xC => Instruction::Random { x, kk },
        0xD => Instruction::Draw { x, y, n: s },
        0xE => {
            if second == 0x9E {
                Instruction::SkipKeyPressed { x }
            } else if second == 0xA1 {
                Instruction::SkipKeyNotPressed { x }
            } else {
                Instruction::Invalid { first, second }
            }
        },
        _ => {
            if second == 0x07 {
                Instruction::ReadDelay { x }
            } else if second == 0x0A {
                Instruction::WaitKey { x }
            } else if second == 0x15 {
                Instruction::SetDelay { x }
            } else if second == 0x18 {
                Instruction::SetSound { x }
            } else if second == 0x1E {
                Instruction::AddIndex { x }
            } else if second == 0x29 {
                Instruction::LoadGlyph { x }
            } else if second == 0x33 {
                Instruction::StoreBcd { x }
            } else if second == 0x55 {
                Instruction::StoreRegs { x }
            } else if second == 0x65 {
                Instruction::LoadRegs { x }
            } else {
                Instruction::Invalid { first, second }
            }
        },
    }
}

} // verus!
