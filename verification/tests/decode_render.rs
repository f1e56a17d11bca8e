use chip8::disassembler::Disassembler;
use chip8::interpreter::Interpreter;
use chip8::opcode::{decode, Instruction, OpCode};
use chip8::types::HandleOp;
use chip8::util::{draw, get_bit_at};

#[test]
fn opcode_word_assembles_from_bytes() {
    let op = OpCode { first: 0x12, second: 0x34 };
    assert_eq!(op.to_u16(), 0x1234);
    let op2 = OpCode { first: 0xFF, second: 0x00 };
    assert_eq!(op2.to_u16(), 0xFF00);
}

#[test]
fn decoder_reads_operand_fields() {
    assert_eq!(decode(0x00, 0xE0), Instruction::Cls);
    assert_eq!(decode(0x00, 0xEE), Instruction::Ret);
    assert_eq!(decode(0x01, 0x23), Instruction::Sys { nnn: 0x123 });
    assert_eq!(decode(0x1A, 0xBC), Instruction::Jump { nnn: 0xABC });
    assert_eq!(decode(0x2F, 0xFF), Instruction::Call { nnn: 0xFFF });
    assert_eq!(decode(0x37, 0x42), Instruction::SkipEqImm { x: 7, kk: 0x42 });
    assert_eq!(decode(0x47, 0x42), Instruction::SkipNeImm { x: 7, kk: 0x42 });
    assert_eq!(decode(0x51, 0x20), Instruction::SkipEqReg { x: 1, y: 2 });
    assert_eq!(decode(0x6A, 0x05), Instruction::LoadImm { x: 0xA, kk: 5 });
    assert_eq!(decode(0x7A, 0x05), Instruction::AddImm { x: 0xA, kk: 5 });
    assert_eq!(decode(0x81, 0x20), Instruction::Move { x: 1, y: 2 });
    assert_eq!(decode(0x81, 0x21), Instruction::Or { x: 1, y: 2 });
    assert_eq!(decode(0x81, 0x22), Instruction::And { x: 1, y: 2 });
    assert_eq!(decode(0x81, 0x23), Instruction::Xor { x: 1, y: 2 });
    assert_eq!(decode(0x81, 0x24), Instruction::Add { x: 1, y: 2 });
    assert_eq!(decode(0x81, 0x25), Instruction::Sub { x: 1, y: 2 });
    assert_eq!(decode(0x81, 0x26), Instruction::ShiftRight { x: 1, y: 2 });
    assert_eq!(decode(0x81, 0x27), Instruction::SubNeg { x: 1, y: 2 });
    assert_eq!(decode(0x81, 0x2E), Instruction::ShiftLeft { x: 1, y: 2 });
    assert_eq!(decode(0x91, 0x20), Instruction::SkipNeReg { x: 1, y: 2 });
    assert_eq!(decode(0xA1, 0x23), Instruction::LoadIndex { nnn: 0x123 });
    assert_eq!(decode(0xB1, 0x23), Instruction::JumpV0 { nnn: 0x123 });
    assert_eq!(decode(0xC3, 0x7F), Instruction::Random { x: 3, kk: 0x7F });
    assert_eq!(decode(0xD1, 0x25), Instruction::Draw { x: 1, y: 2, n: 5 });
    assert_eq!(decode(0xE4, 0x9E), Instruction::SkipKeyPressed { x: 4 });
    assert_eq!(decode(0xE4, 0xA1), Instruction::SkipKeyNotPressed { x: 4 });
    assert_eq!(decode(0xF4, 0x07), Instruction::ReadDelay { x: 4 });
    assert_eq!(decode(0xF4, 0x0A), Instruction::WaitKey { x: 4 });
    assert_eq!(decode(0xF4, 0x15), Instruction::SetDelay { x: 4 });
    assert_eq!(decode(0xF4, 0x18), Instruction::SetSound { x: 4 });
    assert_eq!(decode(0xF4, 0x1E), Instruction::AddIndex { x: 4 });
    assert_eq!(decode(0xF4, 0x29), Instruction::LoadGlyph { x: 4 });
    assert_eq!(decode(0xF4, 0x33), Instruction::StoreBcd { x: 4 });
    assert_eq!(decode(0xF4, 0x55), Instruction::StoreRegs { x: 4 });
    assert_eq!(decode(0xF4, 0x65), Instruction::LoadRegs { x: 4 });
}

#[test]
fn decoder_is_total_on_undefined_selectors() {
    assert_eq!(decode(0x50, 0x11), Instruction::Invalid { first: 0x50, second: 0x11 });
    assert_eq!(decode(0x80, 0x08), Instruction::Invalid { first: 0x80, second: 0x08 });
    assert_eq!(decode(0x90, 0x05), Instruction::Invalid { first: 0x90, second: 0x05 });
    assert_eq!(decode(0xE0, 0x00), Instruction::Invalid { first: 0xE0, second: 0x00 });
    assert_eq!(decode(0xF0, 0x99), Instruction::Invalid { first: 0xF0, second: 0x99 });
    // 00E0/00EE need the whole high byte to be zero
    assert_eq!(decode(0x05, 0xE0), Instruction::Sys { nnn: 0x5E0 });
}

#[test]
fn disassembler_renders_mnemonics() {
    let d = Disassembler {};
    let line = |first: u8, second: u8| d.handle_op(&OpCode { first, second });
    assert_eq!(line(0x00, 0xE0), "CLS");
    assert_eq!(line(0x00, 0xEE), "RET");
    assert_eq!(line(0x01, 0x23), "SYS 123");
    assert_eq!(line(0x1A, 0xBC), "JP abc");
    assert_eq!(line(0x22, 0x04), "CALL 204");
    assert_eq!(line(0x37, 0x2A), "SE v7 42");
    assert_eq!(line(0x47, 0x2A), "SNE v7 42");
    assert_eq!(line(0x51, 0x20), "SE v1 v2");
    assert_eq!(line(0x6A, 0x05), "LD va 5");
    assert_eq!(line(0x7A, 0xFF), "ADD va 255");
    assert_eq!(line(0x81, 0x20), "LD v1 v2");
    assert_eq!(line(0x81, 0x21), "OR v1 v2");
    assert_eq!(line(0x81, 0x22), "AND v1 v2");
    assert_eq!(line(0x81, 0x23), "XOR v1 v2");
    assert_eq!(line(0x81, 0x24), "ADD v1 v2");
    assert_eq!(line(0x81, 0x25), "SUB v1 v2");
    assert_eq!(line(0x81, 0x26), "SHR v1 v2");
    assert_eq!(line(0x81, 0x27), "SUBN v1 v2");
    assert_eq!(line(0x81, 0x2E), "SHL v1 v2");
    assert_eq!(line(0x91, 0x20), "SNE v1 v2");
    assert_eq!(line(0xA1, 0x23), "LD I 123");
    assert_eq!(line(0xB1, 0x23), "JP v0 123");
    assert_eq!(line(0xC3, 0x0F), "RND v3 15");
    assert_eq!(line(0xD1, 0x25), "DRW v1 v2 5");
    assert_eq!(line(0xE4, 0x9E), "SKP v4");
    assert_eq!(line(0xE4, 0xA1), "SKNP v4");
    assert_eq!(line(0xF4, 0x07), "LD v4 DT");
    assert_eq!(line(0xF4, 0x0A), "LD v4 K");
    assert_eq!(line(0xF4, 0x15), "LD DT v4");
    assert_eq!(line(0xF4, 0x18), "LD ST v4");
    assert_eq!(line(0xF4, 0x1E), "ADD I v4");
    assert_eq!(line(0xF4, 0x29), "LD F v4");
    assert_eq!(line(0xF4, 0x33), "LD B v4");
    assert_eq!(line(0xF4, 0x55), "LD [I] v4");
    assert_eq!(line(0xF4, 0x65), "LD v4 [I]");
    assert_eq!(line(0x80, 0x08), "unknown 8");
    assert_eq!(line(0xE0, 0x00), "unknown e");
}

#[test]
fn program_listing_pairs_bytes_in_order() {
    let e = Interpreter::new(vec![0xA2, 0x2A, 0x60, 0x05]).unwrap();
    let lines = e.disassemble_program();
    assert_eq!(lines.len(), 2);
    assert_eq!(lines[0], "LD I 22a");
    assert_eq!(lines[1], "LD v0 5");
}

#[test]
fn program_listing_of_odd_length_program() {
    let e = Interpreter::new(vec![0x60, 0x05, 0x00]).unwrap();
    let lines = e.disassemble_program();
    assert_eq!(lines.len(), 2);
    assert_eq!(lines[0], "LD v0 5");
}

#[test]
fn bit_access_counts_from_least_significant() {
    assert!(get_bit_at(0b0000_0100, 2));
    assert!(!get_bit_at(0b0000_0100, 3));
    assert!(get_bit_at(0x80, 7));
    assert!(!get_bit_at(0xFF, 8));
    assert!(!get_bit_at(0xFF, 200));
}

#[test]
fn renderer_maps_leftmost_pixel_to_top_bit() {
    let mut memory = vec![0u8; 4096];
    memory[0xF00] = 0x80;
    let mut frame = vec![0u8; 8192];
    draw(&mut frame, &memory);
    // pixel 0 is set: lit color
    assert_eq!(&frame[0..4], &[0xfb, 0xbb, 0xb3, 0xff]);
    // pixel 1 is clear: background color
    assert_eq!(&frame[4..8], &[0x88, 0xaa, 0x88, 0xff]);
    // pixel 7 (same byte, least-significant bit) is clear
    assert_eq!(&frame[28..32], &[0x88, 0xaa, 0x88, 0xff]);
}

#[test]
fn renderer_is_row_major() {
    let mut memory = vec![0u8; 4096];
    // first pixel of the second row: pixel 64, byte 8, top bit
    memory[0xF08] = 0x80;
    let mut frame = vec![0u8; 8192];
    draw(&mut frame, &memory);
    assert_eq!(&frame[64 * 4..64 * 4 + 4], &[0xfb, 0xbb, 0xb3, 0xff]);
    assert_eq!(&frame[0..4], &[0x88, 0xaa, 0x88, 0xff]);
}
