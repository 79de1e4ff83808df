//! Instruction semantics, one cycle at a time.

use chip8_core::Chip8;

fn boot_with(program: &[u8]) -> Chip8 {
    let mut c = Chip8::new();
    c.load_program(program);
    c
}

#[test]
fn set_register_immediate() {
    let mut c = boot_with(&[0x63, 0x7F]);
    c.run_cycle_once();
    assert_eq!(c.v_reg[3], 0x7F);
    assert_eq!(c.program_counter, 0x202);
}

#[test]
fn add_immediate_wraps_without_flag() {
    let mut c = boot_with(&[0x60, 0xFF, 0x70, 0x01]);
    c.run_cycle_once();
    c.run_cycle_once();
    assert_eq!(c.v_reg[0], 0);
    assert_eq!(c.v_reg[0xF], 0);
}

#[test]
fn alu_add_sets_carry_iff_sum_exceeds_255() {
    // V0 = 200, V1 = 100: sum 300 -> V0 = 44, VF = 1.
    let mut c = boot_with(&[0x60, 0xC8, 0x61, 0x64, 0x80, 0x14]);
    c.run_cycle_once();
    c.run_cycle_once();
    c.run_cycle_once();
    assert_eq!(c.v_reg[0], 44);
    assert_eq!(c.v_reg[0xF], 1);
    // V2 = 10, V3 = 20: sum 30 -> V2 = 30, VF = 0.
    let mut c = boot_with(&[0x62, 0x0A, 0x63, 0x14, 0x82, 0x34]);
    c.run_cycle_once();
    c.run_cycle_once();
    c.run_cycle_once();
    assert_eq!(c.v_reg[2], 30);
    assert_eq!(c.v_reg[0xF], 0);
}

#[test]
fn alu_sub_sets_not_borrow() {
    // V0 = 5, V1 = 3: V0 - V1 = 2, VF = 1 (no borrow).
    let mut c = boot_with(&[0x60, 0x05, 0x61, 0x03, 0x80, 0x15]);
    c.run_cycle_once();
    c.run_cycle_once();
    c.run_cycle_once();
    assert_eq!(c.v_reg[0], 2);
    assert_eq!(c.v_reg[0xF], 1);
    // V0 = 3, V1 = 5: wraps to 254, VF = 0 (borrow).
    let mut c = boot_with(&[0x60, 0x03, 0x61, 0x05, 0x80, 0x15]);
    c.run_cycle_once();
    c.run_cycle_once();
    c.run_cycle_once();
    assert_eq!(c.v_reg[0], 254);
    assert_eq!(c.v_reg[0xF], 0);
}

#[test]
fn alu_subn_reverses_operands() {
    // V0 = 3, V1 = 5: V0 = V1 - V0 = 2, VF = 1.
    let mut c = boot_with(&[0x60, 0x03, 0x61, 0x05, 0x80, 0x17]);
    c.run_cycle_once();
    c.run_cycle_once();
    c.run_cycle_once();
    assert_eq!(c.v_reg[0], 2);
    assert_eq!(c.v_reg[0xF], 1);
}

#[test]
fn alu_shifts_source_from_vy() {
    // The original-machine quirk: 8xy6 copies Vy, then shifts.
    // V1 = 5: V0 = 2, VF = 1 (bit shifted out).
    let mut c = boot_with(&[0x61, 0x05, 0x80, 0x16]);
    c.run_cycle_once();
    c.run_cycle_once();
    assert_eq!(c.v_reg[0], 2);
    assert_eq!(c.v_reg[0xF], 1);
    assert_eq!(c.v_reg[1], 5);
    // V1 = 0x81: V0 = 2 (shifted left, truncated), VF = 1 (top bit out).
    let mut c = boot_with(&[0x61, 0x81, 0x80, 0x1E]);
    c.run_cycle_once();
    c.run_cycle_once();
    assert_eq!(c.v_reg[0], 0x02);
    assert_eq!(c.v_reg[0xF], 1);
}

#[test]
fn alu_logic_ops_clear_vf() {
    // The documented quirk: OR, AND and XOR reset VF to 0.
    let mut c = boot_with(&[0x6F, 0x05, 0x60, 0x0C, 0x61, 0x0A, 0x80, 0x11]);
    for _ in 0..4 {
        c.run_cycle_once();
    }
    assert_eq!(c.v_reg[0], 0x0C | 0x0A);
    assert_eq!(c.v_reg[0xF], 0);
    let mut c = boot_with(&[0x6F, 0x05, 0x60, 0x0C, 0x61, 0x0A, 0x80, 0x12]);
    for _ in 0..4 {
        c.run_cycle_once();
    }
    assert_eq!(c.v_reg[0], 0x0C & 0x0A);
    assert_eq!(c.v_reg[0xF], 0);
    let mut c = boot_with(&[0x6F, 0x05, 0x60, 0x0C, 0x61, 0x0A, 0x80, 0x13]);
    for _ in 0..4 {
        c.run_cycle_once();
    }
    assert_eq!(c.v_reg[0], 0x0C ^ 0x0A);
    assert_eq!(c.v_reg[0xF], 0);
}

#[test]
fn alu_assign_copies_vy() {
    let mut c = boot_with(&[0x61, 0x2A, 0x80, 0x10]);
    c.run_cycle_once();
    c.run_cycle_once();
    assert_eq!(c.v_reg[0], 0x2A);
}

#[test]
fn skip_if_equal_immediate() {
    let mut c = boot_with(&[0x30, 0x00]);
    c.run_cycle_once();
    assert_eq!(c.program_counter, 0x204); // V0 == 0, skip taken
    let mut c = boot_with(&[0x30, 0x01]);
    c.run_cycle_once();
    assert_eq!(c.program_counter, 0x202); // V0 != 1, no skip
}

#[test]
fn skip_if_not_equal_immediate() {
    let mut c = boot_with(&[0x40, 0x01]);
    c.run_cycle_once();
    assert_eq!(c.program_counter, 0x204);
    let mut c = boot_with(&[0x40, 0x00]);
    c.run_cycle_once();
    assert_eq!(c.program_counter, 0x202);
}

#[test]
fn skip_on_register_comparison() {
    // 5xy0: V0 == V1 (both 0) -> skip.
    let mut c = boot_with(&[0x50, 0x10]);
    c.run_cycle_once();
    assert_eq!(c.program_counter, 0x204);
    // 9xy0: V0 != V1 -> skip.
    let mut c = boot_with(&[0x60, 0x01, 0x90, 0x10]);
    c.run_cycle_once();
    c.run_cycle_once();
    assert_eq!(c.program_counter, 0x206);
}

#[test]
fn skip_on_key_state() {
    // Ex9E skips when key V0 is pressed; ExA1 when it is not.
    let mut c = boot_with(&[0x60, 0x07, 0xE0, 0x9E]);
    c.update_keypad(7, true);
    c.run_cycle_once();
    c.run_cycle_once();
    assert_eq!(c.program_counter, 0x206);
    let mut c = boot_with(&[0x60, 0x07, 0xE0, 0xA1]);
    c.run_cycle_once();
    c.run_cycle_once();
    assert_eq!(c.program_counter, 0x206);
    let mut c = boot_with(&[0x60, 0x07, 0xE0, 0x9E]);
    c.run_cycle_once();
    c.run_cycle_once();
    assert_eq!(c.program_counter, 0x204); // not pressed, no skip
}

#[test]
fn jump_sets_program_counter() {
    let mut c = boot_with(&[0x13, 0x45]);
    c.run_cycle_once();
    assert_eq!(c.program_counter, 0x345);
}

#[test]
fn jump_with_offset_adds_v0() {
    let mut c = boot_with(&[0x60, 0x10, 0xB3, 0x00]);
    c.run_cycle_once();
    c.run_cycle_once();
    assert_eq!(c.program_counter, 0x310);
}

#[test]
fn call_and_return_round_trip() {
    // 2300: call 0x300; at 0x300: 00EE returns past the call.
    let mut program = vec![0x23u8, 0x00];
    program.resize(0x102, 0);
    program[0x100] = 0x00; // address 0x300
    program[0x101] = 0xEE;
    let mut c = boot_with(&program);
    c.run_cycle_once();
    assert_eq!(c.program_counter, 0x300);
    assert_eq!(c.stack_pointer, 1);
    assert_eq!(c.stack[1], 0x202);
    c.run_cycle_once();
    assert_eq!(c.program_counter, 0x202);
    assert_eq!(c.stack_pointer, 0);
}

#[test]
fn set_index_register() {
    let mut c = boot_with(&[0xA7, 0x89]);
    c.run_cycle_once();
    assert_eq!(c.index, 0x789);
}

#[test]
fn add_vx_to_index() {
    let mut c = boot_with(&[0xA1, 0x00, 0x60, 0x22, 0xF0, 0x1E]);
    c.run_cycle_once();
    c.run_cycle_once();
    c.run_cycle_once();
    assert_eq!(c.index, 0x122);
}

#[test]
fn font_address_for_digit() {
    // Fx29: index = (Vx & 0xF) * 5.
    let mut c = boot_with(&[0x60, 0x0B, 0xF0, 0x29]);
    c.run_cycle_once();
    c.run_cycle_once();
    assert_eq!(c.index, 55);
    // High nibble of Vx is ignored.
    let mut c = boot_with(&[0x60, 0xA3, 0xF0, 0x29]);
    c.run_cycle_once();
    c.run_cycle_once();
    assert_eq!(c.index, 15);
}

#[test]
fn bcd_of_157_writes_1_5_7() {
    let mut c = boot_with(&[0x63, 0x9D, 0xA4, 0x00, 0xF3, 0x33]);
    c.run_cycle_once();
    c.run_cycle_once();
    c.run_cycle_once();
    assert_eq!(c.memory.data[0x400], 1);
    assert_eq!(c.memory.data[0x401], 5);
    assert_eq!(c.memory.data[0x402], 7);
}

#[test]
fn store_registers_advances_index() {
    let mut c = boot_with(&[0x60, 0x0A, 0x61, 0x0B, 0x62, 0x0C, 0xA4, 0x00, 0xF2, 0x55]);
    for _ in 0..5 {
        c.run_cycle_once();
    }
    assert_eq!(&c.memory.data[0x400..0x403], &[0x0A, 0x0B, 0x0C]);
    assert_eq!(c.index, 0x403);
}

#[test]
fn read_registers_advances_index() {
    let mut c = boot_with(&[0xA4, 0x00, 0xF2, 0x65]);
    c.memory.data[0x400] = 0x11;
    c.memory.data[0x401] = 0x22;
    c.memory.data[0x402] = 0x33;
    c.run_cycle_once();
    c.run_cycle_once();
    assert_eq!(&c.v_reg[0..3], &[0x11, 0x22, 0x33]);
    assert_eq!(c.v_reg[3], 0);
    assert_eq!(c.index, 0x403);
}

#[test]
fn random_byte_is_masked() {
    // Cxnn: whatever the random byte was, only bits of the mask survive.
    let mut c = boot_with(&[0xC0, 0x0F]);
    c.run_cycle_once();
    assert_eq!(c.v_reg[0] & !0x0F, 0);
    // A zero mask forces zero.
    let mut c = boot_with(&[0xC5, 0x00]);
    c.v_reg[5] = 0xAA;
    c.run_cycle_once();
    assert_eq!(c.v_reg[5], 0);
}

#[test]
fn unknown_opcode_is_a_no_op() {
    let mut c = boot_with(&[0xFF, 0xFF]);
    let v_before = c.v_reg.clone();
    c.run_cycle_once();
    assert_eq!(c.program_counter, 0x202);
    assert_eq!(c.v_reg, v_before);
    assert_eq!(c.index, 0);
}

#[test]
fn cycle_safe_judges_the_next_instruction() {
    let c = Chip8::new();
    assert!(c.cycle_safe()); // 0000 decodes to a harmless no-op
    // A return with an empty stack would underflow.
    let mut c = boot_with(&[0x00, 0xEE]);
    assert!(!c.cycle_safe());
    // A call with a full stack would overflow.
    let mut c = boot_with(&[0x23, 0x00]);
    assert!(c.cycle_safe());
    c.stack_pointer = 15;
    assert!(!c.cycle_safe());
    // A fetch at the top of memory would read out of bounds.
    let mut c = Chip8::new();
    c.program_counter = 4055;
    assert!(!c.cycle_safe());
    // Bumping the index past 16 bits would overflow.
    let mut c = boot_with(&[0xF0, 0x1E]);
    c.index = 0xFFFF;
    c.v_reg[0] = 1;
    assert!(!c.cycle_safe());
    c.v_reg[0] = 0;
    assert!(c.cycle_safe());
}
