//! A textual renderer of opcodes. It shares the engine's decoder, so the
//! two can never disagree about operand extraction; beyond that it has no
//! behavioral contract: its output is text for a human.

use vstd::prelude::*;
use crate::opcode::Instruction;
use crate::opcode::OpCode;
use crate::opcode::decode;
use crate::types::HandleOp;

verus! {

/// One hexadecimal digit as text.
fn hex_digit(n: u8) -> &'static str {
    match n % 16 {
        0 => "0",
        1 => "1",
        2 => "2",
        3 => "3",
        4 => "4",
        5 => "5",
        6 => "6",
        7 => "7",
        8 => "8",
        9 => "9",
        10 => "a",
        11 => "b",
        12 => "c",
        13 => "d",
        14 => "e",
        _ => "f",
    }
}

/// A byte as decimal text without leading zeros.
fn dec_byte(n: u8) -> String {
    let mut s = String::from_str("");
    if n >= 100 {
        s.append(hex_digit(n / 100));
    }
    if n >= 10 {
        s.append(hex_digit((n / 10) % 10));
    }
    s.append(hex_digit(n % 10));
    s
}

/// A 12-bit address as three hexadecimal digits.
fn hex_addr(nnn: u16) -> String {
    let mut s = String::from_str("");
    s.append(hex_digit((nnn / 256) as u8));
    s.append(hex_digit(((nnn / 16) % 16) as u8));
    s.append(hex_digit((nnn % 16) as u8));
    s
}

/// A mnemonic followed by one register operand.
fn op_reg(mnemonic: &str, x: u8) -> String {
    let mut s = String::from_str(mnemonic);
    s.append(" v");
    s.append(hex_digit(x));
    s
}

/// A mnemonic followed by two register operands.
fn op_reg_reg(mnemonic: &str, x: u8, y: u8) -> String {
    let mut s = op_reg(mnemonic, x);
    s.append(" v");
    s.append(hex_digit(y));
    s
}

/// A mnemonic followed by a register and an immediate.
fn op_reg_imm(mnemonic: &str, x: u8, kk: u8) -> String {
    let mut s = op_reg(mnemonic, x);
    s.append(" ");
    let imm = dec_byte(kk);
    s.append(imm.as_str());
    s
}

/// A mnemonic followed by an address.
fn op_addr(mnemonic: &str, nnn: u16) -> String {
    let mut s = String::from_str(mnemonic);
    s.append(" ");
    let addr = hex_addr(nnn);
    s.append(addr.as_str());
    s
}

/// Renders single opcodes as assembly-like text lines.
pub struct Disassembler {}

impl Disassembler {
    /// Class 0: clear-screen, return, or a legacy system call.
    fn handle_0_op(&self, op_code: &OpCode) -> String {
        match decode(op_code.first, op_code.second) {
            Instruction::Cls => String::from_str("CLS"),
            Instruction::Ret => String::from_str("RET"),
            Instruction::Sys { nnn } => op_addr("SYS", nnn),
            _ => String::from_str("unknown 0"),
        }
    }

    fn handle_1_op(&self, op_code: &OpCode) -> String {
        match decode(op_code.first, op_code.second) {
            Instruction::Jump { nnn } => op_addr("JP", nnn),
            _ => String::from_str("unknown 1"),
        }
    }

    fn handle_2_op(&self, op_code: &OpCode) -> String {
        match decode(op_code.first, op_code.second) {
            Instruction::Call { nnn } => op_addr("CALL", nnn),
            _ => String::from_str("unknown 2"),
        }
    }

    fn handle_3_op(&self, op_code: &OpCode) -> String {
        match decode(op_code.first, op_code.second) {
            Instruction::SkipEqImm { x, kk } => op_reg_imm("SE", x, kk),
            _ => String::from_str("unknown 3"),
        }
    }

    fn handle_4_op(&self, op_code: &OpCode) -> String {
        match decode(op_code.first, op_code.second) {
            Instruction::SkipNeImm { x, kk } => op_reg_imm("SNE", x, kk),
            _ => String::from_str("unknown 4"),
        }
    }

    fn handle_5_op(&self, op_code: &OpCode) -> String {
        match decode(op_code.first, op_code.second) {
            Instruction::SkipEqReg { x, y } => op_reg_reg("SE", x, y),
            _ => String::from_str("unknown 5"),
        }
    }

    fn handle_6_op(&self, op_code: &OpCode) -> String {
        match decode(op_code.first, op_code.second) {
            Instruction::LoadImm { x, kk } => op_reg_imm("LD", x, kk),
            _ => String::from_str("unknown 6"),
        }
    }

    fn handle_7_op(&self, op_code: &OpCode) -> String {
        match decode(op_code.first, op_code.second) {
            Instruction::AddImm { x, kk } => op_reg_imm("ADD", x, kk),
            _ => String::from_str("unknown 7"),
        }
    }

    /// Class 8: moves, bitwise operations, arithmetic and shifts.
    fn handle_8_op(&self, op_code: &OpCode) -> String {
        match decode(op_code.first, op_code.second) {
            Instruction::Move { x, y } => op_reg_reg("LD", x, y),
            Instruction::Or { x, y } => op_reg_reg("OR", x, y),
            Instruction::And { x, y } => op_reg_reg("AND", x, y),
            Instruction::Xor { x, y } => op_reg_reg("XOR", x, y),
            Instruction::Add { x, y } => op_reg_reg("ADD", x, y),
            Instruction::Sub { x, y } => op_reg_reg("SUB", x, y),
            Instruction::ShiftRight { x, y } => op_reg_reg("SHR", x, y),
            Instruction::SubNeg { x, y } => op_reg_reg("SUBN", x, y),
            Instruction::ShiftLeft { x, y } => op_reg_reg("SHL", x, y),
            _ => String::from_str("unknown 8"),
        }
    }

    fn handle_9_op(&self, op_code: &OpCode) -> String {
        match decode(op_code.first, op_code.second) {
            Instruction::SkipNeReg { x, y } => op_reg_reg("SNE", x, y),
            _ => String::from_str("unknown 9"),
        }
    }

    fn handle_a_op(&self, op_code: &OpCode) -> String {
        match decode(op_code.first, op_code.second) {
            Instruction::LoadIndex { nnn } => op_addr("LD I", nnn),
            _ => String::from_str("unknown a"),
        }
    }

    fn handle_b_op(&self, op_code: &OpCode) -> String {
        match decode(op_code.first, op_code.second) {
            Instruction::JumpV0 { nnn } => op_addr("JP v0", nnn),
            _ => String::from_str("unknown b"),
        }
    }

    fn handle_c_op(&self, op_code: &OpCode) -> String {
        match decode(op_code.first, op_code.second) {
            Instruction::Random { x, kk } => op_reg_imm("RND", x, kk),
            _ => String::from_str("unknown c"),
        }
    }

    fn handle_d_op(&self, op_code: &OpCode) -> String {
        match decode(op_code.first, op_code.second) {
            Instruction::Draw { x, y, n } => {
                let mut s = op_reg_reg("DRW", x, y);
                s.append(" ");
                let height = dec_byte(n);
                s.append(height.as_str());
                s
            },
            _ => String::from_str("unknown d"),
        }
    }

    /// Class E: key skips.
    fn handle_e_op(&self, op_code: &OpCode) -> String {
        match decode(op_code.first, op_code.second) {
            Instruction::SkipKeyPressed { x } => op_reg("SKP", x),
            Instruction::SkipKeyNotPressed { x } => op_reg("SKNP", x),
            _ => String::from_str("unknown e"),
        }
    }

    /// Class F: timers, key wait, index arithmetic, font, BCD, dump/load.
    fn handle_f_op(&self, op_code: &OpCode) -> String {
        match decode(op_code.first, op_code.second) {
            Instruction::ReadDelay { x } => {
                let mut s = op_reg("LD", x);
                s.append(" DT");
                s
            },
            Instruction::WaitKey { x } => {
                let mut s = op_reg("LD", x);
                s.append(" K");
                s
            },
            Instruction::SetDelay { x } => op_reg("LD DT", x),
            Instruction::SetSound { x } => op_reg("LD ST", x),
            Instruction::AddIndex { x } => op_reg("ADD I", x),
            Instruction::LoadGlyph { x } => op_reg("LD F", x),
            Instruction::StoreBcd { x } => op_reg("LD B", x),
            Instruction::StoreRegs { x } => op_reg("LD [I]", x),
            Instruction::LoadRegs { x } => {
                let mut s = op_reg("LD", x);
                s.append(" [I]");
                s
            },
            _ => String::from_str("unknown f"),
        }
    }
}

impl HandleOp for Disassembler {
    /// Render one opcode as an assembly-like line.
    fn handle_op(&self, op_code: &OpCode) -> String {
        let nibble = op_code.first / 16;
        match nibble {
            0x0 => self.handle_0_op(op_code),
            0x1 => self.handle_1_op(op_code),
            0x2 => self.handle_2_op(op_code),
            0x3 => self.handle_3_op(op_code),
            0x4 => self.handle_4_op(op_code),
            0x5 => self.handle_5_op(op_code),
            0x6 => self.handle_6_op(op_code),
            0x7 => self.handle_7_op(op_code),
            0x8 => self.handle_8_op(op_code),
            0x9 => self.handle_9_op(op_code),
            0xA => self.handle_a_op(op_code),
            0xB => self.handle_b_op(op_code),
            0xC => self.handle_c_op(op_code),
            0xD => self.handle_d_op(op_code),
            0xE => self.handle_e_op(op_code),
            _ => self.handle_f_op(op_code),
        }
    }
}

} // verus!
