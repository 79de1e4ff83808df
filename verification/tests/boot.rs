//! Power-on and program loading.

use chip8_core::Chip8;
use chip8_core::Memory;

const FONT: [u8; 80] = [
    0xF0, 0x90, 0x90, 0x90, 0xF0, // 0
    0x20, 0x60, 0x20, 0x20, 0x70, // 1
    0xF0, 0x10, 0xF0, 0x80, 0xF0, // 2
    0xF0, 0x10, 0xF0, 0x10, 0xF0, // 3
    0x90, 0x90, 0xF0, 0x10, 0x10, // 4
    0xF0, 0x80, 0xF0, 0x10, 0xF0, // 5
    0xF0, 0x80, 0xF0, 0x90, 0xF0, // 6
    0xF0, 0x10, 0x20, 0x40, 0x40, // 7
    0xF0, 0x90, 0xF0, 0x90, 0xF0, // 8
    0xF0, 0x90, 0xF0, 0x10, 0xF0, // 9
    0xF0, 0x90, 0xF0, 0x90, 0x90, // A
    0xE0, 0x90, 0xE0, 0x90, 0xE0, // B
    0xF0, 0x80, 0x80, 0x80, 0xF0, // C
    0xE0, 0x90, 0x90, 0x90, 0xE0, // D
    0xF0, 0x80, 0xF0, 0x80, 0xF0, // E
    0xF0, 0x80, 0xF0, 0x80, 0x80, // F
];

#[test]
fn power_on_state() {
    let c = Chip8::new();
    assert_eq!(c.program_counter, 0x200);
    assert_eq!(c.index, 0);
    assert_eq!(c.stack_pointer, 0);
    assert_eq!(c.delay_timer.current_time, 60);
    assert_eq!(c.sound_timer.current_time, 60);
    assert_eq!(c.temp_key, None);
    assert_eq!(c.memory.data.len(), 4056);
    assert_eq!(c.display.len(), 64 * 32);
    assert!(c.display.iter().all(|&p| !p));
    assert!(c.v_reg.iter().all(|&r| r == 0));
    assert!(c.stack.iter().all(|&r| r == 0));
    assert!(c.keypad.iter().all(|&k| !k));
}

#[test]
fn font_installed_at_power_on() {
    let c = Chip8::new();
    assert_eq!(&c.memory.data[0x050..0x050 + 80], &FONT[..]);
    assert!(c.memory.data[..0x050].iter().all(|&b| b == 0));
    assert!(c.memory.data[0x050 + 80..].iter().all(|&b| b == 0));
}

#[test]
fn load_program_places_image_and_keeps_boot_state() {
    let mut c = Chip8::new();
    let program = [0xA1u8, 0xB2, 0xC3];
    c.load_program(&program);
    assert_eq!(c.program_counter, 0x200);
    assert_eq!(&c.memory.data[0x200..0x203], &program[..]);
    assert_eq!(&c.memory.data[0x050..0x050 + 80], &FONT[..]);
    assert!(c.memory.data[0x203..].iter().all(|&b| b == 0));
}

#[test]
fn load_program_overwrites_prior_program() {
    let mut c = Chip8::new();
    c.load_program(&[0x11, 0x22, 0x33, 0x44]);
    c.load_program(&[0x55, 0x66]);
    assert_eq!(&c.memory.data[0x200..0x204], &[0x55, 0x66, 0x33, 0x44]);
}

#[test]
fn memory_read_write_round_trip() {
    let mut m = Memory::new();
    m.write_byte(0x700, 0xAB);
    assert_eq!(m.read_byte(0x700), 0xAB);
    assert_eq!(m.read_byte(0x701), 0);
}

#[test]
fn memory_load_program_starts_at_0x200() {
    let mut m = Memory::new();
    m.load_program(&[9, 8, 7]);
    assert_eq!(m.read_byte(0x200), 9);
    assert_eq!(m.read_byte(0x201), 8);
    assert_eq!(m.read_byte(0x202), 7);
    assert_eq!(m.read_byte(0x1FF), 0);
}
