use chip8::chip8::Chip8;
use chip8::font::font_data;

#[test]
fn font_loaded_in_memory() {
    let chip8 = Chip8::new();
    assert_eq!(&chip8.memory()[0x050..0x050 + 80], &font_data());
}

#[test]
fn rom_loading() {
    let mut chip8 = Chip8::new();
    let _ = chip8.load_rom(&[0x12, 0x34, 0x56]);
    assert_eq!(chip8.memory()[0x200], 0x12);
    assert_eq!(chip8.memory()[0x201], 0x34);
    assert_eq!(chip8.memory()[0x202], 0x56);
}

#[test]
fn rom_preserves_font() {
    let mut chip8 = Chip8::new();
    let _ = chip8.load_rom(&[0xFF; 100]);
    assert_eq!(&chip8.memory()[0x050..0x050 + 80], &font_data());
}

#[test]
fn load_rom_reports_success() {
    let mut chip8 = Chip8::new();
    assert_eq!(chip8.load_rom(&[0x00, 0xE0]), Ok("Loaded Rom Into memory".to_string()));
}

#[test]
fn load_rom_refuses_oversized_rom() {
    let mut chip8 = Chip8::new();
    let rom = vec![0xAAu8; 4096 - 0x050 + 1];
    assert_eq!(chip8.load_rom(&rom), Err("Rom Too Large!!!".to_string()));
    assert_eq!(chip8.memory()[0x200], 0x00);
    assert_eq!(&chip8.memory()[0x050..0x050 + 80], &font_data());
}

#[test]
fn load_rom_accepts_rom_filling_program_space() {
    let mut chip8 = Chip8::new();
    let rom = vec![0x5Au8; 4096 - 0x200];
    assert!(chip8.load_rom(&rom).is_ok());
    assert_eq!(chip8.memory()[0x200], 0x5A);
    assert_eq!(chip8.memory()[4095], 0x5A);
    assert_eq!(chip8.memory()[0x1FF], 0x00);
}

#[test]
fn new_machine_state() {
    let chip8 = Chip8::new();
    assert_eq!(chip8.program_counter(), 0x200);
    assert_eq!(chip8.index_register(), 0);
    assert_eq!(chip8.stack_pointer(), 0);
    assert_eq!(chip8.registers(), &[0u8; 16]);
    assert_eq!(chip8.stack(), &[0u16; 16]);
    assert_eq!(chip8.delay_timer(), 0);
    assert_eq!(chip8.sound_timer(), 0);
    assert!(!chip8.waiting());
    assert!(!chip8.sound_active());
    assert!(chip8.display.buffer().iter().all(|&p| !p));
    for k in 0..16 {
        assert!(!chip8.keypad.is_pressed(k));
    }
    assert_eq!(chip8.memory()[0], 0);
    assert_eq!(chip8.memory()[0x050 + 80], 0);
}

#[test]
fn tick_runs_program() {
    // LD V0, 0x05; LD ST, V0; ADD V0, 0x01; JP 0x200
    let mut chip8 = Chip8::new();
    let _ = chip8.load_rom(&[0x60, 0x05, 0xF0, 0x18, 0x70, 0x01, 0x12, 0x00]);
    assert!(chip8.can_tick());
    chip8.tick();
    assert_eq!(chip8.registers()[0], 0x05);
    assert_eq!(chip8.program_counter(), 0x202);
    chip8.tick();
    assert_eq!(chip8.sound_timer(), 5);
    assert!(chip8.sound_active());
    chip8.tick();
    assert_eq!(chip8.registers()[0], 0x06);
    chip8.tick();
    assert_eq!(chip8.program_counter(), 0x200);
}

#[test]
fn tick_times_counts_down_to_zero() {
    let mut chip8 = Chip8::new();
    let _ = chip8.load_rom(&[0x60, 0x02, 0xF0, 0x15, 0xF0, 0x18]);
    chip8.tick();
    chip8.tick();
    chip8.tick();
    assert_eq!(chip8.delay_timer(), 2);
    assert_eq!(chip8.sound_timer(), 2);
    chip8.tick_times();
    assert_eq!(chip8.delay_timer(), 1);
    assert!(chip8.sound_active());
    chip8.tick_times();
    chip8.tick_times();
    assert_eq!(chip8.delay_timer(), 0);
    assert_eq!(chip8.sound_timer(), 0);
    assert!(!chip8.sound_active());
}

#[test]
fn tick_skips_unknown_opcode() {
    let mut chip8 = Chip8::new();
    let _ = chip8.load_rom(&[0x8F, 0xFF, 0x60, 0x07]);
    chip8.tick();
    assert_eq!(chip8.program_counter(), 0x202);
    assert_eq!(chip8.registers(), &[0u8; 16]);
    chip8.tick();
    assert_eq!(chip8.registers()[0], 7);
}

#[test]
fn tick_draws_font_glyph() {
    // LD V0, 0x0A; LD F, V0; DRW V1, V1, 5
    let mut chip8 = Chip8::new();
    let _ = chip8.load_rom(&[0x60, 0x0A, 0xF0, 0x29, 0xD1, 0x15]);
    chip8.tick();
    chip8.tick();
    assert_eq!(chip8.index_register(), 0x050 + 0xA * 5);
    chip8.tick();
    // glyph A first row is 0xF0: four pixels on at the top-left
    let buf = chip8.display.buffer();
    assert!(buf[0] && buf[1] && buf[2] && buf[3] && !buf[4]);
    assert_eq!(chip8.registers()[0xF], 0);
}

#[test]
fn can_tick_refuses_return_with_empty_stack() {
    let mut chip8 = Chip8::new();
    let _ = chip8.load_rom(&[0x00, 0xEE]);
    assert!(!chip8.can_tick());
}

#[test]
fn can_tick_refuses_key_skip_on_large_register() {
    // LD V0, 0x20; SKP V0
    let mut chip8 = Chip8::new();
    let _ = chip8.load_rom(&[0x60, 0x20, 0xE0, 0x9E]);
    assert!(chip8.can_tick());
    chip8.tick();
    assert!(!chip8.can_tick());
}

#[test]
fn fetch_wraps_at_end_of_memory() {
    let mut chip8 = Chip8::new();
    let _ = chip8.load_rom(&[0x1F, 0xFE]); // JP 0xFFE
    chip8.tick();
    assert_eq!(chip8.program_counter(), 0xFFE);
    chip8.tick(); // 0x0000 is SYS: skipped
    assert_eq!(chip8.program_counter(), 0x000);
}
