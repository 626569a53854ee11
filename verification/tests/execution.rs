use chip8::cpu::CPU;
use chip8::display::Display;
use chip8::keypad::Keypad;

#[test]
fn execute_unknown_opcode_fails_and_changes_nothing() {
    let mut cpu = CPU::new();
    let mut memory = [0u8; 4096];
    let mut display = Display::new();
    let keypad = Keypad::new();
    let r = cpu.execute(0x812F, &mut memory, &mut display, &keypad);
    assert_eq!(r, Err("Unknown Opcode: 0x812f".to_string()));
    let r = cpu.execute(0x0123, &mut memory, &mut display, &keypad);
    assert_eq!(r, Err("Unknown Opcode: 0x0123".to_string()));
    let r = cpu.execute(0xFFFF, &mut memory, &mut display, &keypad);
    assert_eq!(r, Err("Unknown Opcode: 0xffff".to_string()));
    assert_eq!(cpu.PC, 0x200);
    assert_eq!(cpu.regs, [0u8; 16]);
}

#[test]
fn execute_dispatches_arithmetic() {
    let mut cpu = CPU::new();
    let mut memory = [0u8; 4096];
    let mut display = Display::new();
    let keypad = Keypad::new();
    assert!(cpu.execute(0x60FF, &mut memory, &mut display, &keypad).is_ok());
    assert!(cpu.execute(0x6102, &mut memory, &mut display, &keypad).is_ok());
    assert!(cpu.execute(0x8014, &mut memory, &mut display, &keypad).is_ok());
    assert_eq!(cpu.regs[0], 0x01);
    assert_eq!(cpu.regs[0xF], 1);
}

#[test]
fn call_then_ret_returns() {
    let mut cpu = CPU::new();
    cpu.PC = 0x20A;
    CPU::CALL(&mut cpu, 0x300);
    assert_eq!(cpu.PC, 0x300);
    CPU::RET(&mut cpu);
    assert_eq!(cpu.PC, 0x20A);
    assert_eq!(cpu.SP, 0);
}

#[test]
fn store_then_load_registers_round_trip() {
    let mut cpu = CPU::new();
    let mut memory = [0u8; 4096];
    cpu.index = 0x400;
    for i in 0..16 {
        cpu.regs[i] = (i as u8) * 3 + 1;
    }
    let saved = cpu.regs;
    CPU::LDIVx(&cpu, &mut memory, 15);
    cpu.regs = [0; 16];
    CPU::LDVxI(&mut cpu, &memory, 15);
    assert_eq!(cpu.regs, saved);
}

#[test]
fn subtraction_flag_written_before_result() {
    // VF as the destination: the flag is overwritten by the difference
    let mut cpu = CPU::new();
    cpu.regs[0xF] = 0x10;
    cpu.regs[1] = 0x05;
    CPU::BRWSUB(&mut cpu, 0xF, 1);
    assert_eq!(cpu.regs[0xF], 0xFC); // 1 - 5 wrapping
}

#[test]
fn shift_right_into_flag_register() {
    let mut cpu = CPU::new();
    cpu.regs[0xF] = 0x03;
    CPU::SHRVc(&mut cpu, 0xF);
    assert_eq!(cpu.regs[0xF], 0x00);
}

#[test]
fn ldvxk_takes_lowest_pressed_key() {
    let mut cpu = CPU::new();
    let mut keypad = Keypad::new();
    keypad.press(9);
    keypad.press(4);
    CPU::LDVxK(&mut cpu, &keypad, 1);
    assert_eq!(cpu.regs[1], 4);
}

#[test]
fn decrement_timers_stops_at_zero() {
    let mut cpu = CPU::new();
    cpu.DT = 1;
    cpu.ST = 0;
    cpu.decrement_timers();
    assert_eq!(cpu.DT, 0);
    assert_eq!(cpu.ST, 0);
    cpu.decrement_timers();
    assert_eq!(cpu.DT, 0);
}

#[test]
fn fetch_wraps_around_memory() {
    let mut cpu = CPU::new();
    let mut memory = [0u8; 4096];
    memory[0xFFF] = 0xAB;
    memory[0] = 0xCD;
    cpu.PC = 0x1FFF;
    assert_eq!(cpu.fetch(&memory), 0xABCD);
    assert_eq!(cpu.PC, 0x001);
}

#[test]
fn rnd_with_byte_masks() {
    let mut cpu = CPU::new();
    CPU::RNDVx_with(&mut cpu, 2, 0x0F, 0xA7);
    assert_eq!(cpu.regs[2], 0x07);
}

#[test]
fn jpv0_adds_register() {
    let mut cpu = CPU::new();
    cpu.regs[0] = 0xFF;
    CPU::JPV0(&mut cpu, 0xFFF);
    assert_eq!(cpu.PC, 0x10FE);
}

#[test]
fn step_is_safe_detects_faults() {
    let mut cpu = CPU::new();
    let keypad = Keypad::new();
    assert!(!cpu.step_is_safe(0x00EE, &keypad));
    assert!(cpu.step_is_safe(0x2300, &keypad));
    cpu.SP = 15;
    assert!(!cpu.step_is_safe(0x2300, &keypad));
    cpu.index = 0xFFE;
    assert!(!cpu.step_is_safe(0xD005, &keypad));
    assert!(cpu.step_is_safe(0xD002, &keypad));
    assert!(cpu.step_is_safe(0x812F, &keypad));
}

#[test]
fn refused_opcodes_are_marked_in_disassembly() {
    for op in 0..=u16::MAX {
        let mut cpu = CPU::new();
        let mut memory = [0u8; 4096];
        let mut display = Display::new();
        let keypad = Keypad::new();
        if !cpu.step_is_safe(op, &keypad) {
            continue;
        }
        let refused = cpu.execute(op, &mut memory, &mut display, &keypad).is_err();
        let text = chip8::disassembler::disassemble(op);
        let marked = text.starts_with("SYS  ") || text.starts_with("???  ");
        assert_eq!(refused, marked, "opcode {:#06X}", op);
    }
}
