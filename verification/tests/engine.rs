use chip8::interpreter::Interpreter;
use chip8::types::Chip8Error;

fn engine(program: Vec<u8>) -> Interpreter {
    Interpreter::new(program).unwrap()
}

#[test]
fn load_immediate_is_observable() {
    // 63AB: V3 <- 0xAB
    let mut e = engine(vec![0x63, 0xAB]);
    let r = e.tick().unwrap();
    assert!(!r.refresh_display);
    assert_eq!(r.wait_for_keyboard, None);
    assert_eq!(e.v_reg(3), 0xAB);
    assert_eq!(e.pc(), 0x202);
}

#[test]
fn load_immediate_every_value_spot_checks() {
    for a in [0u8, 1, 0x7F, 0x80, 0xFE, 0xFF] {
        let mut e = engine(vec![0x60, a]);
        e.tick().unwrap();
        assert_eq!(e.v_reg(0), a);
    }
}

#[test]
fn add_registers_wraps_and_sets_carry() {
    // V1 <- 0xFF, V2 <- 0x01, V1 <- V1 + V2
    let mut e = engine(vec![0x61, 0xFF, 0x62, 0x01, 0x81, 0x24]);
    e.tick().unwrap();
    e.tick().unwrap();
    e.tick().unwrap();
    assert_eq!(e.v_reg(1), 0x00);
    assert_eq!(e.v_reg(15), 1);
}

#[test]
fn add_registers_no_carry() {
    let mut e = engine(vec![0x61, 0x02, 0x62, 0x03, 0x81, 0x24]);
    e.tick().unwrap();
    e.tick().unwrap();
    e.tick().unwrap();
    assert_eq!(e.v_reg(1), 5);
    assert_eq!(e.v_reg(15), 0);
}

#[test]
fn sub_registers_borrows() {
    // V1 <- 0x01, V2 <- 0x02, V1 <- V1 - V2: wraps to 0xFF, VF = 0
    let mut e = engine(vec![0x61, 0x01, 0x62, 0x02, 0x81, 0x25]);
    e.tick().unwrap();
    e.tick().unwrap();
    e.tick().unwrap();
    assert_eq!(e.v_reg(1), 0xFF);
    assert_eq!(e.v_reg(15), 0);
}

#[test]
fn sub_registers_no_borrow() {
    let mut e = engine(vec![0x61, 0x05, 0x62, 0x02, 0x81, 0x25]);
    e.tick().unwrap();
    e.tick().unwrap();
    e.tick().unwrap();
    assert_eq!(e.v_reg(1), 3);
    assert_eq!(e.v_reg(15), 1);
}

#[test]
fn skip_eq_imm_taken_advances_four() {
    // V0 == 0 at start, 3000 compares V0 with 0: taken
    let mut e = engine(vec![0x30, 0x00]);
    e.tick().unwrap();
    assert_eq!(e.pc(), 0x204);
}

#[test]
fn skip_eq_imm_not_taken_advances_two() {
    let mut e = engine(vec![0x30, 0x05]);
    e.tick().unwrap();
    assert_eq!(e.pc(), 0x202);
}

#[test]
fn skip_ne_imm() {
    let mut e = engine(vec![0x40, 0x05]);
    e.tick().unwrap();
    assert_eq!(e.pc(), 0x204);
    let mut e2 = engine(vec![0x40, 0x00]);
    e2.tick().unwrap();
    assert_eq!(e2.pc(), 0x202);
}

#[test]
fn skip_eq_and_ne_registers() {
    // V0 and V1 both zero: 5010 taken, 9010 not taken
    let mut e = engine(vec![0x50, 0x10]);
    e.tick().unwrap();
    assert_eq!(e.pc(), 0x204);
    let mut e2 = engine(vec![0x90, 0x10]);
    e2.tick().unwrap();
    assert_eq!(e2.pc(), 0x202);
}

#[test]
fn draw_twice_restores_framebuffer_and_collides() {
    // A206: I <- 0x206 (two 0xFF sprite rows in the program region)
    // D012: draw 2 rows at (V0, V1) = (0, 0), twice
    let mut e = engine(vec![0xA2, 0x06, 0xD0, 0x12, 0xD0, 0x12, 0xFF, 0xFF]);
    e.tick().unwrap();
    let r1 = e.tick().unwrap();
    assert!(r1.refresh_display);
    assert_eq!(e.memory_at(0xF00), 0xFF);
    assert_eq!(e.memory_at(0xF08), 0xFF);
    assert_eq!(e.v_reg(15), 0);
    let r2 = e.tick().unwrap();
    assert!(r2.refresh_display);
    assert_eq!(e.memory_at(0xF00), 0x00);
    assert_eq!(e.memory_at(0xF08), 0x00);
    assert_eq!(e.v_reg(15), 1);
}

#[test]
fn draw_detects_collision_on_overlap() {
    // Draw one 0x80 row at (0,0) twice: second draw turns the pixel off.
    let mut e = engine(vec![0xA2, 0x06, 0xD0, 0x11, 0xD0, 0x11, 0x80]);
    e.tick().unwrap();
    e.tick().unwrap();
    assert_eq!(e.memory_at(0xF00), 0x80);
    assert_eq!(e.v_reg(15), 0);
    e.tick().unwrap();
    assert_eq!(e.memory_at(0xF00), 0x00);
    assert_eq!(e.v_reg(15), 1);
}

#[test]
fn draw_reduces_anchor_modulo_grid() {
    // V0 = 66 wraps to column 2: 0x80 lands on pixel 2 of row 0.
    let mut e = engine(vec![0x60, 0x42, 0xA2, 0x08, 0xD0, 0x11, 0x00, 0x00, 0x80]);
    e.tick().unwrap();
    e.tick().unwrap();
    e.tick().unwrap();
    assert_eq!(e.memory_at(0xF00), 0x20);
}

#[test]
fn draw_spills_across_row_edge_linearly() {
    // Column 62: an 0xFF row occupies pixels 62..70, spilling into the
    // next row's first pixels.
    let mut e = engine(vec![0x60, 0x3E, 0xA2, 0x08, 0xD0, 0x11, 0x00, 0x00, 0xFF]);
    e.tick().unwrap();
    e.tick().unwrap();
    e.tick().unwrap();
    assert_eq!(e.memory_at(0xF07), 0x03);
    assert_eq!(e.memory_at(0xF08), 0xFC);
}

#[test]
fn draw_zero_rows_clears_flag_only() {
    let mut e = engine(vec![0xD0, 0x10]);
    let r = e.tick().unwrap();
    assert!(r.refresh_display);
    assert_eq!(e.v_reg(15), 0);
    for a in 0xF00..0x1000 {
        assert_eq!(e.memory_at(a), 0);
    }
}

#[test]
fn call_then_ret_round_trip() {
    // 2204: CALL 0x204; at 0x204: 00EE RET
    let mut e = engine(vec![0x22, 0x04, 0x00, 0x00, 0x00, 0xEE]);
    e.tick().unwrap();
    assert_eq!(e.pc(), 0x204);
    assert_eq!(e.stack_depth(), 1);
    e.tick().unwrap();
    assert_eq!(e.pc(), 0x202);
    assert_eq!(e.stack_depth(), 0);
}

#[test]
fn two_instruction_scenario() {
    // A22A 6005: I <- 0x22A, then V0 <- 5
    let mut e = engine(vec![0xA2, 0x2A, 0x60, 0x05]);
    e.tick().unwrap();
    e.tick().unwrap();
    assert_eq!(e.i_reg(), 0x22A);
    assert_eq!(e.v_reg(0), 5);
    assert_eq!(e.pc(), 0x204);
}

#[test]
fn key_wait_blocks_then_stores_key() {
    // F50A: wait for a key, store its code in V5
    let mut e = engine(vec![0xF5, 0x0A]);
    let r = e.tick().unwrap();
    assert_eq!(e.pc(), 0x200);
    assert_eq!(r.wait_for_keyboard, Some(5));
    e.press_key(7, true);
    let r2 = e.tick().unwrap();
    assert_eq!(r2.wait_for_keyboard, None);
    assert_eq!(e.v_reg(5), 7);
    assert_eq!(e.pc(), 0x202);
}

#[test]
fn key_wait_takes_lowest_pressed_key() {
    let mut e = engine(vec![0xF0, 0x0A]);
    e.press_key(9, true);
    e.press_key(4, true);
    e.tick().unwrap();
    assert_eq!(e.v_reg(0), 4);
}

#[test]
fn store_key_writes_register_directly() {
    let mut e = engine(vec![0x00, 0x00]);
    e.store_key(6, 0xC);
    assert_eq!(e.v_reg(6), 0xC);
}

#[test]
fn skip_if_key_pressed() {
    // V0 <- 4, E09E: skip when key 4 pressed
    let mut e = engine(vec![0x60, 0x04, 0xE0, 0x9E]);
    e.press_key(4, true);
    e.tick().unwrap();
    e.tick().unwrap();
    assert_eq!(e.pc(), 0x206);
}

#[test]
fn skip_if_key_not_pressed() {
    let mut e = engine(vec![0x60, 0x04, 0xE0, 0xA1]);
    e.tick().unwrap();
    e.tick().unwrap();
    assert_eq!(e.pc(), 0x206);
    let mut e2 = engine(vec![0x60, 0x04, 0xE0, 0xA1]);
    e2.press_key(4, true);
    e2.tick().unwrap();
    e2.tick().unwrap();
    assert_eq!(e2.pc(), 0x204);
}

#[test]
fn released_key_no_longer_counts() {
    let mut e = engine(vec![0x60, 0x04, 0xE0, 0x9E]);
    e.press_key(4, true);
    e.press_key(4, false);
    e.tick().unwrap();
    e.tick().unwrap();
    assert_eq!(e.pc(), 0x204);
}

#[test]
fn timers_decrement_once_per_tick() {
    // V0 <- 10, DT <- V0, V1 <- DT
    let mut e = engine(vec![0x60, 0x0A, 0xF0, 0x15, 0xF1, 0x07]);
    e.tick().unwrap();
    e.tick().unwrap();
    assert_eq!(e.delay_timer(), 10);
    e.tick().unwrap();
    // the third tick decrements DT to 9 before the instruction reads it
    assert_eq!(e.delay_timer(), 9);
    assert_eq!(e.v_reg(1), 9);
}

#[test]
fn sound_timer_counts_down_and_stops_at_zero() {
    // V0 <- 2, ST <- V0, then two no-op system words
    let mut e = engine(vec![0x60, 0x02, 0xF0, 0x18, 0x00, 0x00, 0x00, 0x00]);
    e.tick().unwrap();
    e.tick().unwrap();
    assert_eq!(e.sound_timer(), 2);
    e.tick().unwrap();
    assert_eq!(e.sound_timer(), 1);
    e.tick().unwrap();
    assert_eq!(e.sound_timer(), 0);
    // a further tick would fetch zeros: still a no-op, and ST stays 0
    let mut e2 = engine(vec![0x00, 0x00]);
    e2.tick().unwrap();
    assert_eq!(e2.sound_timer(), 0);
}

#[test]
fn bcd_writes_three_digits() {
    // V0 <- 254, I <- 0x300, F033
    let mut e = engine(vec![0x60, 0xFE, 0xA3, 0x00, 0xF0, 0x33]);
    e.tick().unwrap();
    e.tick().unwrap();
    e.tick().unwrap();
    assert_eq!(e.memory_at(0x300), 2);
    assert_eq!(e.memory_at(0x301), 5);
    assert_eq!(e.memory_at(0x302), 4);
}

#[test]
fn bcd_of_single_digit() {
    let mut e = engine(vec![0x60, 0x07, 0xA3, 0x00, 0xF0, 0x33]);
    e.tick().unwrap();
    e.tick().unwrap();
    e.tick().unwrap();
    assert_eq!(e.memory_at(0x300), 0);
    assert_eq!(e.memory_at(0x301), 0);
    assert_eq!(e.memory_at(0x302), 7);
}

#[test]
fn store_and_load_registers_round_trip() {
    // V0 <- 0x11, V1 <- 0x22, I <- 0x300, dump V0..V1,
    // overwrite V0 and V1, load them back
    let mut e = engine(vec![
        0x60, 0x11, 0x61, 0x22, 0xA3, 0x00, 0xF1, 0x55, 0x60, 0x00, 0x61, 0x00, 0xF1, 0x65,
    ]);
    for _ in 0..4 {
        e.tick().unwrap();
    }
    assert_eq!(e.memory_at(0x300), 0x11);
    assert_eq!(e.memory_at(0x301), 0x22);
    for _ in 0..3 {
        e.tick().unwrap();
    }
    assert_eq!(e.v_reg(0), 0x11);
    assert_eq!(e.v_reg(1), 0x22);
}

#[test]
fn shifts_report_shifted_out_bit() {
    // V0 <- 5, SHR: V0 = 2, VF = 1
    let mut e = engine(vec![0x60, 0x05, 0x80, 0x06]);
    e.tick().unwrap();
    e.tick().unwrap();
    assert_eq!(e.v_reg(0), 2);
    assert_eq!(e.v_reg(15), 1);
    // V0 <- 0x81, SHL: V0 = 2, VF = 1
    let mut e2 = engine(vec![0x60, 0x81, 0x80, 0x0E]);
    e2.tick().unwrap();
    e2.tick().unwrap();
    assert_eq!(e2.v_reg(0), 2);
    assert_eq!(e2.v_reg(15), 1);
}

#[test]
fn sub_neg_subtracts_other_way() {
    // V0 <- 1, V1 <- 3, 8017: V0 <- V1 - V0 = 2, VF = 1
    let mut e = engine(vec![0x60, 0x01, 0x61, 0x03, 0x80, 0x17]);
    e.tick().unwrap();
    e.tick().unwrap();
    e.tick().unwrap();
    assert_eq!(e.v_reg(0), 2);
    assert_eq!(e.v_reg(15), 1);
}

#[test]
fn bitwise_and_move_ops() {
    // V0 <- 0x0F, V1 <- 0x35
    let mut e = engine(vec![0x60, 0x0F, 0x61, 0x35, 0x80, 0x11]);
    e.tick().unwrap();
    e.tick().unwrap();
    e.tick().unwrap();
    assert_eq!(e.v_reg(0), 0x3F);  // OR
    let mut e2 = engine(vec![0x60, 0x0F, 0x61, 0x35, 0x80, 0x12]);
    e2.tick().unwrap();
    e2.tick().unwrap();
    e2.tick().unwrap();
    assert_eq!(e2.v_reg(0), 0x05);  // AND
    let mut e3 = engine(vec![0x60, 0x0F, 0x61, 0x35, 0x80, 0x13]);
    e3.tick().unwrap();
    e3.tick().unwrap();
    e3.tick().unwrap();
    assert_eq!(e3.v_reg(0), 0x3A);  // XOR
    let mut e4 = engine(vec![0x61, 0x35, 0x80, 0x10]);
    e4.tick().unwrap();
    e4.tick().unwrap();
    assert_eq!(e4.v_reg(0), 0x35);  // move
}

#[test]
fn add_immediate_wraps_without_flag() {
    let mut e = engine(vec![0x60, 0xFF, 0x70, 0x02]);
    e.tick().unwrap();
    e.tick().unwrap();
    assert_eq!(e.v_reg(0), 1);
    assert_eq!(e.v_reg(15), 0);
}

#[test]
fn jump_and_jump_v0() {
    let mut e = engine(vec![0x12, 0x04]);
    e.tick().unwrap();
    assert_eq!(e.pc(), 0x204);
    let mut e2 = engine(vec![0x60, 0x10, 0xB2, 0x30]);
    e2.tick().unwrap();
    e2.tick().unwrap();
    assert_eq!(e2.pc(), 0x240);
}

#[test]
fn index_load_add_and_glyph() {
    let mut e = engine(vec![0xA1, 0x23, 0x60, 0x02, 0xF0, 0x1E]);
    e.tick().unwrap();
    assert_eq!(e.i_reg(), 0x123);
    e.tick().unwrap();
    e.tick().unwrap();
    assert_eq!(e.i_reg(), 0x125);
    // glyph of digit 0xA sits 5 bytes per glyph from the font base
    let mut e2 = engine(vec![0x60, 0x0A, 0xF0, 0x29]);
    e2.tick().unwrap();
    e2.tick().unwrap();
    assert_eq!(e2.i_reg(), 50);
}

#[test]
fn random_masked_by_zero_is_zero() {
    let mut e = engine(vec![0xC0, 0x00]);
    e.tick().unwrap();
    assert_eq!(e.v_reg(0), 0);
    assert_eq!(e.pc(), 0x202);
}

#[test]
fn random_stays_within_mask() {
    for _ in 0..16 {
        let mut e = engine(vec![0xC0, 0x0F]);
        e.tick().unwrap();
        assert!(e.v_reg(0) <= 0x0F);
    }
}

#[test]
fn clear_screen_zeroes_framebuffer() {
    let mut e = engine(vec![0xA2, 0x06, 0xD0, 0x11, 0x00, 0xE0, 0x80]);
    e.tick().unwrap();
    e.tick().unwrap();
    assert_eq!(e.memory_at(0xF00), 0x80);
    let r = e.tick().unwrap();
    assert!(r.refresh_display);
    for a in 0xF00..0x1000 {
        assert_eq!(e.memory_at(a), 0);
    }
}

#[test]
fn system_word_is_a_no_op() {
    let mut e = engine(vec![0x01, 0x23]);
    let r = e.tick().unwrap();
    assert!(!r.refresh_display);
    assert_eq!(e.pc(), 0x202);
}

#[test]
fn invalid_alu_selector_halts() {
    let mut e = engine(vec![0x80, 0x08]);
    assert_eq!(e.tick(), Err(Chip8Error::InvalidOpcode));
    assert_eq!(e.pc(), 0x200);
}

#[test]
fn invalid_key_selector_halts() {
    let mut e = engine(vec![0xE0, 0x00]);
    assert_eq!(e.tick(), Err(Chip8Error::InvalidOpcode));
}

#[test]
fn invalid_misc_selector_halts() {
    let mut e = engine(vec![0xF0, 0x00]);
    assert_eq!(e.tick(), Err(Chip8Error::InvalidOpcode));
}

#[test]
fn invalid_skip_selector_halts() {
    let mut e = engine(vec![0x50, 0x11]);
    assert_eq!(e.tick(), Err(Chip8Error::InvalidOpcode));
    let mut e2 = engine(vec![0x90, 0x11]);
    assert_eq!(e2.tick(), Err(Chip8Error::InvalidOpcode));
}

#[test]
fn ret_on_empty_stack_underflows() {
    let mut e = engine(vec![0x00, 0xEE]);
    assert_eq!(e.tick(), Err(Chip8Error::StackUnderflow));
}

#[test]
fn seventeenth_nested_call_overflows() {
    // 2200 calls address 0x200, which holds the same call again
    let mut e = engine(vec![0x22, 0x00]);
    for _ in 0..16 {
        assert!(e.tick().is_ok());
    }
    assert_eq!(e.stack_depth(), 16);
    assert_eq!(e.tick(), Err(Chip8Error::StackOverflow));
    assert_eq!(e.stack_depth(), 16);
}

#[test]
fn bcd_outside_memory_is_out_of_range() {
    // I <- 0xFFF: the three digit bytes would run past the address space
    let mut e = engine(vec![0xAF, 0xFF, 0xF0, 0x33]);
    e.tick().unwrap();
    assert_eq!(e.tick(), Err(Chip8Error::AddressOutOfRange));
}

#[test]
fn register_dump_outside_memory_is_out_of_range() {
    // I <- 0xFF8, dump V0..V15: would write past the address space
    let mut e = engine(vec![0xAF, 0xF8, 0xFF, 0x55]);
    e.tick().unwrap();
    assert_eq!(e.tick(), Err(Chip8Error::AddressOutOfRange));
}

#[test]
fn sprite_read_outside_memory_is_out_of_range() {
    // I <- 0xFFF, draw two rows: the second row byte is outside memory
    let mut e = engine(vec![0xAF, 0xFF, 0xD0, 0x12]);
    e.tick().unwrap();
    assert_eq!(e.tick(), Err(Chip8Error::AddressOutOfRange));
}

#[test]
fn fetch_outside_memory_is_out_of_range() {
    // jump to 0xFFF: the next fetch needs a byte past the address space
    let mut e = engine(vec![0x1F, 0xFF]);
    e.tick().unwrap();
    assert_eq!(e.pc(), 0xFFF);
    assert_eq!(e.tick(), Err(Chip8Error::AddressOutOfRange));
}

#[test]
fn oversized_program_is_rejected_at_load() {
    assert!(matches!(
        Interpreter::new(vec![0; 3585]),
        Err(Chip8Error::AddressOutOfRange)
    ));
    assert!(Interpreter::new(vec![0; 3584]).is_ok());
}

#[test]
fn construction_installs_font_program_and_zeroes() {
    let e = engine(vec![0xAB, 0xCD, 0xEF]);
    // font glyph 0 starts at the font base
    assert_eq!(e.memory_at(0), 0xF0);
    assert_eq!(e.memory_at(1), 0x90);
    assert_eq!(e.memory_at(4), 0xF0);
    // glyph 1, row 0
    assert_eq!(e.memory_at(5), 0x20);
    // glyph 0xF, last row
    assert_eq!(e.memory_at(79), 0x80);
    // program image
    assert_eq!(e.memory_at(0x200), 0xAB);
    assert_eq!(e.memory_at(0x201), 0xCD);
    assert_eq!(e.memory_at(0x202), 0xEF);
    // everything after the program is zero
    assert_eq!(e.memory_at(0x203), 0);
    assert_eq!(e.memory_at(0xFFF), 0);
    // machine registers start zeroed
    assert_eq!(e.pc(), 0x200);
    assert_eq!(e.i_reg(), 0);
    assert_eq!(e.delay_timer(), 0);
    assert_eq!(e.sound_timer(), 0);
    assert_eq!(e.stack_depth(), 0);
    for x in 0..16 {
        assert_eq!(e.v_reg(x), 0);
    }
}
