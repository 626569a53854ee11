use chip8::cpu::CPU;
use chip8::display::Display;
use chip8::keypad::Keypad;

fn new_cpu() -> CPU {
    CPU::new()
}

fn new_display() -> Display {
    Display::new()
}

fn new_keypad() -> Keypad {
    Keypad::new()
}

#[test]
fn initial_cpu_state() {
    let cpu = new_cpu();
    assert_eq!(cpu.PC, 0x200);
    assert_eq!(cpu.regs, [0u8; 16]);
    assert_eq!(cpu.index, 0);
    assert_eq!(cpu.SP, 0);
    assert_eq!(cpu.DT, 0);
    assert_eq!(cpu.ST, 0);
}

// -- CLS (00E0) --
#[test]
fn cls_clears_display() {
    let mut display = new_display();
    display.draw_sprite(0, 0, &[0xFF]);
    CPU::CLS(&mut display);
    for x in 0..64 {
        assert!(!display.get_pixel(x, 0));
    }
}

// -- RET (00EE) --
#[test]
fn ret_pops_stack() {
    let mut cpu = new_cpu();
    cpu.SP = 1;
    cpu.stack[1] = 0x400;
    CPU::RET(&mut cpu);
    assert_eq!(cpu.PC, 0x400);
    assert_eq!(cpu.SP, 0);
}

// -- JP (1nnn) --
#[test]
fn jp_sets_pc() {
    let mut cpu = new_cpu();
    CPU::JP(&mut cpu, 0x300);
    assert_eq!(cpu.PC, 0x300);
}

// -- CALL (2nnn) --
#[test]
fn call_pushes_stack_and_jumps() {
    let mut cpu = new_cpu();
    let old_pc = cpu.PC;
    CPU::CALL(&mut cpu, 0x400);
    assert_eq!(cpu.SP, 1);
    assert_eq!(cpu.stack[1], old_pc);
    assert_eq!(cpu.PC, 0x400);
}

// -- SE Vx, kk (3xkk) --
#[test]
fn sevx_skips_when_equal() {
    let mut cpu = new_cpu();
    let old_pc = cpu.PC;
    cpu.regs[0] = 0x42;
    CPU::SEVx(&mut cpu, 0, 0x42);
    assert_eq!(cpu.PC, old_pc + 2);
}

#[test]
fn sevx_no_skip_when_not_equal() {
    let mut cpu = new_cpu();
    let old_pc = cpu.PC;
    cpu.regs[0] = 0x42;
    CPU::SEVx(&mut cpu, 0, 0x43);
    assert_eq!(cpu.PC, old_pc);
}

// -- SNE Vx, kk (4xkk) --
#[test]
fn snevx_skips_when_not_equal() {
    let mut cpu = new_cpu();
    let old_pc = cpu.PC;
    cpu.regs[0] = 0x42;
    CPU::SNEVx(&mut cpu, 0, 0x43);
    assert_eq!(cpu.PC, old_pc + 2);
}

#[test]
fn snevx_no_skip_when_equal() {
    let mut cpu = new_cpu();
    let old_pc = cpu.PC;
    cpu.regs[0] = 0x42;
    CPU::SNEVx(&mut cpu, 0, 0x42);
    assert_eq!(cpu.PC, old_pc);
}

// -- SE Vx, Vy (5xy0) --
#[test]
fn sevxvy_skips_when_equal() {
    let mut cpu = new_cpu();
    let old_pc = cpu.PC;
    cpu.regs[0] = 0x10;
    cpu.regs[1] = 0x10;
    CPU::SEVxVy(&mut cpu, 0, 1);
    assert_eq!(cpu.PC, old_pc + 2);
}

#[test]
fn sevxvy_no_skip_when_not_equal() {
    let mut cpu = new_cpu();
    let old_pc = cpu.PC;
    cpu.regs[0] = 0x10;
    cpu.regs[1] = 0x20;
    CPU::SEVxVy(&mut cpu, 0, 1);
    assert_eq!(cpu.PC, old_pc);
}

// -- LD Vx, kk (6xkk) --
#[test]
fn ldvx_sets_register() {
    let mut cpu = new_cpu();
    CPU::LDVx(&mut cpu, 0x5, 0xAB);
    assert_eq!(cpu.regs[0x5], 0xAB);
}

// -- ADD Vx, kk (7xkk) --
#[test]
fn addvx_adds_to_register() {
    let mut cpu = new_cpu();
    cpu.regs[0] = 0x10;
    CPU::ADDVx(&mut cpu, 0, 0x05);
    assert_eq!(cpu.regs[0], 0x15);
}

#[test]
fn addvx_wraps_on_overflow() {
    let mut cpu = new_cpu();
    cpu.regs[0] = 0xFF;
    CPU::ADDVx(&mut cpu, 0, 0x02);
    assert_eq!(cpu.regs[0], 0x01);
}

// -- LD Vx, Vy (8xy0) --
#[test]
fn ldvxvy_copies_register() {
    let mut cpu = new_cpu();
    cpu.regs[1] = 0xBB;
    CPU::LDVxVy(&mut cpu, 0, 1);
    assert_eq!(cpu.regs[0], 0xBB);
}

// -- OR Vx, Vy (8xy1) --
#[test]
fn orvxvy_bitwise_or() {
    let mut cpu = new_cpu();
    cpu.regs[0] = 0x0F;
    cpu.regs[1] = 0xF0;
    CPU::ORVxVy(&mut cpu, 0, 1);
    assert_eq!(cpu.regs[0], 0xFF);
}

// -- AND Vx, Vy (8xy2) --
#[test]
fn andvxvy_bitwise_and() {
    let mut cpu = new_cpu();
    cpu.regs[0] = 0x0F;
    cpu.regs[1] = 0xFF;
    CPU::ANDVxVy(&mut cpu, 0, 1);
    assert_eq!(cpu.regs[0], 0x0F);
}

// -- XOR Vx, Vy (8xy3) --
#[test]
fn xorvxvy_bitwise_xor() {
    let mut cpu = new_cpu();
    cpu.regs[0] = 0xFF;
    cpu.regs[1] = 0x0F;
    CPU::XORVxVy(&mut cpu, 0, 1);
    assert_eq!(cpu.regs[0], 0xF0);
}

// -- ADD Vx, Vy with carry (8xy4) --
#[test]
fn crryadd_no_carry() {
    let mut cpu = new_cpu();
    cpu.regs[0] = 0x10;
    cpu.regs[1] = 0x20;
    CPU::CRRYADD(&mut cpu, 0, 1);
    assert_eq!(cpu.regs[0], 0x30);
    assert_eq!(cpu.regs[0xF], 0);
}

#[test]
fn crryadd_with_carry() {
    let mut cpu = new_cpu();
    cpu.regs[0] = 0xFF;
    cpu.regs[1] = 0x02;
    CPU::CRRYADD(&mut cpu, 0, 1);
    assert_eq!(cpu.regs[0], 0x01);
    assert_eq!(cpu.regs[0xF], 1);
}

// -- SUB Vx, Vy (8xy5) --
#[test]
fn brwsub_no_borrow() {
    let mut cpu = new_cpu();
    cpu.regs[0] = 0x10;
    cpu.regs[1] = 0x05;
    CPU::BRWSUB(&mut cpu, 0, 1);
    assert_eq!(cpu.regs[0], 0x0B);
    assert_eq!(cpu.regs[0xF], 1);
}

#[test]
fn brwsub_with_borrow() {
    let mut cpu = new_cpu();
    cpu.regs[0] = 0x05;
    cpu.regs[1] = 0x10;
    CPU::BRWSUB(&mut cpu, 0, 1);
    assert_eq!(cpu.regs[0], 0xF5); // wrapping subtraction
    assert_eq!(cpu.regs[0xF], 0);
}

// -- SHR Vx (8xy6) --
#[test]
fn shrvc_lsb_set() {
    let mut cpu = new_cpu();
    cpu.regs[0] = 0x03; // binary 0000_0011, LSB = 1
    CPU::SHRVc(&mut cpu, 0);
    assert_eq!(cpu.regs[0], 0x01);
    assert_eq!(cpu.regs[0xF], 1);
}

#[test]
fn shrvc_lsb_clear() {
    let mut cpu = new_cpu();
    cpu.regs[0] = 0x02; // binary 0000_0010, LSB = 0
    CPU::SHRVc(&mut cpu, 0);
    assert_eq!(cpu.regs[0], 0x01);
    assert_eq!(cpu.regs[0xF], 0);
}

// -- SUBN Vx, Vy (8xy7) --
#[test]
fn brwsub2_no_borrow() {
    let mut cpu = new_cpu();
    cpu.regs[0] = 0x05;
    cpu.regs[1] = 0x10;
    CPU::BRWSUB2(&mut cpu, 0, 1);
    assert_eq!(cpu.regs[0], 0x0B);
    assert_eq!(cpu.regs[0xF], 1);
}

#[test]
fn brwsub2_with_borrow() {
    let mut cpu = new_cpu();
    cpu.regs[0] = 0x10;
    cpu.regs[1] = 0x05;
    CPU::BRWSUB2(&mut cpu, 0, 1);
    assert_eq!(cpu.regs[0], 0xF5); // wrapping subtraction
    assert_eq!(cpu.regs[0xF], 0);
}

// -- SHL Vx (8xyE) --
#[test]
fn shlvc_msb_set() {
    let mut cpu = new_cpu();
    cpu.regs[0] = 0x80; // binary 1000_0000, MSB = 1
    CPU::SHLVc(&mut cpu, 0);
    assert_eq!(cpu.regs[0], 0x00); // 0x80 * 2 overflows to 0
    assert_eq!(cpu.regs[0xF], 1);
}

#[test]
fn shlvc_msb_clear() {
    let mut cpu = new_cpu();
    cpu.regs[0] = 0x02; // binary 0000_0010, MSB = 0
    CPU::SHLVc(&mut cpu, 0);
    assert_eq!(cpu.regs[0], 0x04);
    assert_eq!(cpu.regs[0xF], 0);
}

// -- SNE Vx, Vy (9xy0) --
#[test]
fn snevxvy_skips_when_not_equal() {
    let mut cpu = new_cpu();
    let old_pc = cpu.PC;
    cpu.regs[0] = 0x10;
    cpu.regs[1] = 0x20;
    CPU::SNEVxVy(&mut cpu, 0, 1);
    assert_eq!(cpu.PC, old_pc + 2);
}

#[test]
fn snevxvy_no_skip_when_equal() {
    let mut cpu = new_cpu();
    let old_pc = cpu.PC;
    cpu.regs[0] = 0x10;
    cpu.regs[1] = 0x10;
    CPU::SNEVxVy(&mut cpu, 0, 1);
    assert_eq!(cpu.PC, old_pc);
}

// -- LD I, nnn (Annn) --
#[test]
fn ldi_sets_index() {
    let mut cpu = new_cpu();
    CPU::LDI(&mut cpu, 0x500);
    assert_eq!(cpu.index, 0x500);
}

// -- JP V0, nnn (Bnnn) --
#[test]
fn jpv0_jumps_with_offset() {
    let mut cpu = new_cpu();
    cpu.regs[0] = 0x10;
    CPU::JPV0(&mut cpu, 0x300);
    assert_eq!(cpu.PC, 0x310);
}

// -- RND Vx, kk (Cxkk) --
#[test]
fn rndvx_masks_value() {
    let mut cpu = new_cpu();
    cpu.regs[0] = 0xFF;
    CPU::RNDVx(&mut cpu, 0, 0x0F);
    // Result should be masked to lower nibble at most
    assert_eq!(cpu.regs[0] & 0xF0, 0x00);
}

// -- DRW Vx, Vy, n (Dxyn) --
#[test]
fn drw_draws_sprite_no_collision() {
    let mut cpu = new_cpu();
    let mut memory = [0u8; 4096];
    let mut display = new_display();
    cpu.index = 0x300;
    memory[0x300] = 0x80; // single pixel top-left
    cpu.regs[0] = 0; // x
    cpu.regs[1] = 0; // y
    CPU::DRW(&mut cpu, &memory, &mut display, 0, 1, 1);
    assert!(display.get_pixel(0, 0));
}

#[test]
fn drw_detects_collision() {
    let mut cpu = new_cpu();
    let mut memory = [0u8; 4096];
    let mut display = new_display();
    cpu.index = 0x300;
    memory[0x300] = 0x80;
    cpu.regs[0] = 0;
    cpu.regs[1] = 0;
    // Draw once — no collision
    CPU::DRW(&mut cpu, &memory, &mut display, 0, 1, 1);
    // Draw again at same spot — collision
    CPU::DRW(&mut cpu, &memory, &mut display, 0, 1, 1);
    assert_eq!(cpu.regs[0xF], 1); // VF set to collision flag
}

// -- SKP Vx (Ex9E) --
#[test]
fn skp_skips_when_pressed() {
    let mut cpu = new_cpu();
    let mut keypad = new_keypad();
    let old_pc = cpu.PC;
    cpu.regs[0] = 5;
    keypad.press(5);
    CPU::SKP(&mut cpu, &keypad, 0);
    assert_eq!(cpu.PC, old_pc + 2);
}

#[test]
fn skp_no_skip_when_not_pressed() {
    let mut cpu = new_cpu();
    let keypad = new_keypad();
    let old_pc = cpu.PC;
    cpu.regs[0] = 5;
    CPU::SKP(&mut cpu, &keypad, 0);
    assert_eq!(cpu.PC, old_pc);
}

// -- SKNP Vx (ExA1) --
#[test]
fn sknp_skips_when_not_pressed() {
    let mut cpu = new_cpu();
    let keypad = new_keypad();
    let old_pc = cpu.PC;
    cpu.regs[0] = 5;
    CPU::SKNP(&mut cpu, &keypad, 0);
    assert_eq!(cpu.PC, old_pc + 2);
}

#[test]
fn sknp_no_skip_when_pressed() {
    let mut cpu = new_cpu();
    let mut keypad = new_keypad();
    let old_pc = cpu.PC;
    cpu.regs[0] = 5;
    keypad.press(5);
    CPU::SKNP(&mut cpu, &keypad, 0);
    assert_eq!(cpu.PC, old_pc);
}

// -- LD Vx, DT (Fx07) --
#[test]
fn ldvxdt_reads_delay_timer() {
    let mut cpu = new_cpu();
    cpu.DT = 0x30;
    CPU::LDVxDT(&mut cpu, 0);
    assert_eq!(cpu.regs[0], 0x30);
}

// -- LD Vx, K (Fx0A) --
#[test]
fn ldvxk_stores_key_when_pressed() {
    let mut cpu = new_cpu();
    let mut keypad = new_keypad();
    keypad.press(7);
    CPU::LDVxK(&mut cpu, &keypad, 0);
    assert_eq!(cpu.regs[0], 7);
    assert!(cpu.waiting.is_none());
}

#[test]
fn ldvxk_waits_when_no_key_pressed() {
    let mut cpu = new_cpu();
    let keypad = new_keypad();
    CPU::LDVxK(&mut cpu, &keypad, 3);
    assert_eq!(cpu.waiting, Some(3));
}

#[test]
fn ldvxk_execute_halts_while_waiting() {
    let mut cpu = new_cpu();
    let mut memory = [0u8; 4096];
    let mut display = new_display();
    let keypad = new_keypad();
    cpu.waiting = Some(2);
    // Execute should just poll the keypad and return early
    let result = cpu.execute(0x00E0, &mut memory, &mut display, &keypad);
    assert!(result.is_ok());
    // Still waiting since no key pressed
    assert_eq!(cpu.waiting, Some(2));
}

#[test]
fn ldvxk_execute_resumes_on_key_press() {
    let mut cpu = new_cpu();
    let mut memory = [0u8; 4096];
    let mut display = new_display();
    let mut keypad = new_keypad();
    cpu.waiting = Some(2);
    keypad.press(0xA);
    let result = cpu.execute(0x00E0, &mut memory, &mut display, &keypad);
    assert!(result.is_ok());
    assert!(cpu.waiting.is_none());
    assert_eq!(cpu.regs[2], 0xA);
}

// -- LD DT, Vx (Fx15) --
#[test]
fn lddtvx_sets_delay_timer() {
    let mut cpu = new_cpu();
    cpu.regs[0] = 0x45;
    CPU::LDDTVx(&mut cpu, 0);
    assert_eq!(cpu.DT, 0x45);
}

// -- LD ST, Vx (Fx18) --
#[test]
fn ldstvx_sets_sound_timer() {
    let mut cpu = new_cpu();
    cpu.regs[0] = 0x20;
    CPU::LDSTVx(&mut cpu, 0);
    assert_eq!(cpu.ST, 0x20);
}

// -- ADD I, Vx (Fx1E) --
#[test]
fn addivx_adds_to_index() {
    let mut cpu = new_cpu();
    cpu.index = 0x100;
    cpu.regs[0] = 0x10;
    CPU::ADDIVx(&mut cpu, 0);
    assert_eq!(cpu.index, 0x110);
}

// -- LD F, Vx (Fx29) --
#[test]
fn ldfvx_sets_font_address() {
    let mut cpu = new_cpu();
    cpu.regs[0] = 0; // digit 0
    CPU::LDFVx(&mut cpu, 0);
    assert_eq!(cpu.index, 0x050);

    cpu.regs[0] = 1; // digit 1
    CPU::LDFVx(&mut cpu, 0);
    assert_eq!(cpu.index, 0x055);

    cpu.regs[0] = 0xF; // digit F
    CPU::LDFVx(&mut cpu, 0);
    assert_eq!(cpu.index, 0x050 + 0xF * 5);
}

// -- LD B, Vx (Fx33) --
#[test]
fn ldbvx_stores_bcd() {
    let mut cpu = new_cpu();
    let mut memory = [0u8; 4096];
    cpu.index = 0x300;
    cpu.regs[0] = 254;
    CPU::LDBVx(&cpu, &mut memory, 0);
    assert_eq!(memory[0x300], 2); // hundreds
    assert_eq!(memory[0x301], 5); // tens
    assert_eq!(memory[0x302], 4); // ones
}

#[test]
fn ldbvx_stores_bcd_zero() {
    let mut cpu = new_cpu();
    let mut memory = [0u8; 4096];
    cpu.index = 0x300;
    cpu.regs[0] = 0;
    CPU::LDBVx(&cpu, &mut memory, 0);
    assert_eq!(memory[0x300], 0);
    assert_eq!(memory[0x301], 0);
    assert_eq!(memory[0x302], 0);
}

// -- LD [I], Vx (Fx55) --
#[test]
fn ldivx_stores_registers_to_memory() {
    let mut cpu = new_cpu();
    let mut memory = [0u8; 4096];
    cpu.index = 0x300;
    cpu.regs[0] = 0xAA;
    cpu.regs[1] = 0xBB;
    cpu.regs[2] = 0xCC;
    CPU::LDIVx(&cpu, &mut memory, 2);
    assert_eq!(memory[0x300], 0xAA);
    assert_eq!(memory[0x301], 0xBB);
    assert_eq!(memory[0x302], 0xCC);
    assert_eq!(memory[0x303], 0x00); // untouched
}

// -- LD Vx, [I] (Fx65) --
#[test]
fn ldvxi_loads_registers_from_memory() {
    let mut cpu = new_cpu();
    let mut memory = [0u8; 4096];
    cpu.index = 0x300;
    memory[0x300] = 0x11;
    memory[0x301] = 0x22;
    memory[0x302] = 0x33;
    CPU::LDVxI(&mut cpu, &memory, 2);
    assert_eq!(cpu.regs[0], 0x11);
    assert_eq!(cpu.regs[1], 0x22);
    assert_eq!(cpu.regs[2], 0x33);
    assert_eq!(cpu.regs[3], 0x00); // untouched
}

// -- fetch --
#[test]
fn fetch_reads_opcode() {
    let mut cpu = new_cpu();
    let mut memory = [0u8; 4096];
    memory[0x200] = 0x12;
    memory[0x201] = 0x34;
    assert_eq!(cpu.fetch(&memory), 0x1234);
}

// -- new --
#[test]
fn new_cpu_initial_state() {
    let cpu = new_cpu();
    assert_eq!(cpu.PC, 0x200);
    assert_eq!(cpu.SP, 0);
    assert_eq!(cpu.index, 0);
    assert_eq!(cpu.DT, 0);
    assert_eq!(cpu.ST, 0);
    assert!(cpu.waiting.is_none());
    assert_eq!(cpu.regs, [0u8; 16]);
    assert_eq!(cpu.stack, [0u16; 16]);
}

