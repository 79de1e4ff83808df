//! The draw instruction: XOR blitting, clipping, collision, the rate gate,
//! and the display-clearing instruction.

use chip8_core::Chip8;

const WIDTH: usize = 64;

fn boot_with(program: &[u8]) -> Chip8 {
    let mut c = Chip8::new();
    c.load_program(program);
    c
}

/// Run cycles until the program counter moves: the draw instruction rewinds
/// and retries itself until a full tick interval has passed since the last
/// successful draw, so a driver that keeps calling in eventually gets the
/// draw through.
fn run_until_pc_moves(c: &mut Chip8) {
    let pc = c.program_counter;
    while c.program_counter == pc {
        c.run_cycle_once();
    }
}

#[test]
fn draw_rate_gate_rewinds_then_draws() {
    // However soon after power-on the draw runs, looping on it must
    // terminate with the row drawn and the program counter advanced.
    let mut c = boot_with(&[0xA3, 0x00, 0xD0, 0x11]);
    c.memory.data[0x300] = 0b1010_0000;
    c.run_cycle_once(); // index
    run_until_pc_moves(&mut c); // retries until the throttle allows it
    assert_eq!(c.program_counter, 0x204);
    assert!(c.display[0]);
    assert!(!c.display[1]);
    assert!(c.display[2]);
    assert!(!c.display[3]);
}

#[test]
fn draw_twice_restores_display_and_reports_collision() {
    // Drawing the same sprite at the same spot twice erases it again; the
    // second draw collides with the cells the first draw lit.
    let mut c = boot_with(&[0xA3, 0x00, 0xD0, 0x11, 0xD0, 0x11]);
    c.memory.data[0x300] = 0xFF;
    c.run_cycle_once();
    run_until_pc_moves(&mut c);
    assert_eq!(c.v_reg[0xF], 0); // empty display: no collision
    for col in 0..8 {
        assert!(c.display[col]);
    }
    run_until_pc_moves(&mut c);
    assert_eq!(c.v_reg[0xF], 1);
    assert!(c.display.iter().all(|&p| !p));
}

#[test]
fn draw_clips_at_right_edge() {
    // An 8-bit row at x = 60 writes only columns 60..=63 and nothing wraps
    // into the next row.
    let mut c = boot_with(&[0x60, 0x3C, 0xA3, 0x00, 0xD0, 0x11]);
    c.memory.data[0x300] = 0xFF;
    c.run_cycle_once();
    c.run_cycle_once();
    run_until_pc_moves(&mut c);
    for col in 0..60 {
        assert!(!c.display[col], "column {col} must stay off");
    }
    for col in 60..64 {
        assert!(c.display[col], "column {col} must be lit");
    }
    for cell in WIDTH..c.display.len() {
        assert!(!c.display[cell], "row 1 and below must stay off");
    }
}

#[test]
fn draw_clips_at_bottom_edge() {
    // Four rows starting at y = 30: only rows 30 and 31 are drawn.
    let mut c = boot_with(&[0x61, 0x1E, 0xA3, 0x00, 0xD0, 0x14]);
    for r in 0..4 {
        c.memory.data[0x300 + r] = 0x80;
    }
    c.run_cycle_once();
    c.run_cycle_once();
    run_until_pc_moves(&mut c);
    assert!(c.display[30 * WIDTH]);
    assert!(c.display[31 * WIDTH]);
    let lit = c.display.iter().filter(|&&p| p).count();
    assert_eq!(lit, 2);
}

#[test]
fn draw_wraps_start_coordinates_once() {
    // Starting coordinates are taken mod 64 and mod 32.
    let mut c = boot_with(&[0x60, 0x41, 0x61, 0x21, 0xA3, 0x00, 0xD0, 0x11]);
    c.memory.data[0x300] = 0x80;
    c.run_cycle_once();
    c.run_cycle_once();
    c.run_cycle_once();
    run_until_pc_moves(&mut c);
    assert!(c.display[1 * WIDTH + 1]); // (65 % 64, 33 % 32) = (1, 1)
    let lit = c.display.iter().filter(|&&p| p).count();
    assert_eq!(lit, 1);
}

#[test]
fn draw_partial_overlap_sets_collision_and_xors() {
    let mut c = boot_with(&[0xA3, 0x00, 0xD0, 0x11, 0xA3, 0x01, 0xD0, 0x11]);
    c.memory.data[0x300] = 0b1100_0000;
    c.memory.data[0x301] = 0b0110_0000;
    c.run_cycle_once();
    run_until_pc_moves(&mut c);
    c.run_cycle_once();
    run_until_pc_moves(&mut c);
    // 11000000 XOR 01100000 = 10100000; overlap on column 1 collides.
    assert_eq!(c.v_reg[0xF], 1);
    assert!(c.display[0]);
    assert!(!c.display[1]);
    assert!(c.display[2]);
    assert!(!c.display[3]);
}

#[test]
fn clear_display_turns_every_cell_off() {
    let mut c = boot_with(&[0x00, 0xE0]);
    for cell in [0usize, 77, 1024, 2047] {
        c.display[cell] = true;
    }
    c.run_cycle_once();
    assert!(c.display.iter().all(|&p| !p));
    assert_eq!(c.program_counter, 0x202);
}
