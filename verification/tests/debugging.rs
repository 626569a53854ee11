use std::collections::HashSet;

use chip8::chip8::Chip8;
use chip8::debugger::{
    current_instruction_lines, disassembly_line, disassembly_start, memory_row_text,
    register_view_lines, stack_view_lines, timer_view_lines, toggle_breakpoint, DebugState,
    EmulatorSnapshot,
};
use chip8::sound::{ToneCommand, ToneState};

#[test]
fn snapshot_default_is_power_on() {
    let s = EmulatorSnapshot::default();
    assert_eq!(s.PC, 0x200);
    assert_eq!(s.regs, [0; 16]);
    assert_eq!(s.memory.len(), 4096);
    assert!(!s.waiting);
    assert_eq!(s.current_opcode, 0);
}

#[test]
fn debug_state_starts_running() {
    let d = DebugState::new();
    assert!(!d.paused);
    assert!(!d.step_requested);
    assert!(!d.reset_requested);
    assert!(d.breakpoints.is_empty());
    assert!(d.should_execute());
}

#[test]
fn update_copies_machine() {
    let mut c8 = Chip8::new();
    let _ = c8.load_rom(&[0x6A, 0x42, 0xA1, 0x23]);
    c8.tick();
    let mut d = DebugState::new();
    d.update(&c8);
    assert_eq!(d.snapshot.regs[0xA], 0x42);
    assert_eq!(d.snapshot.PC, 0x202);
    assert_eq!(d.snapshot.current_opcode, 0xA123);
    assert_eq!(d.snapshot.memory[0x200], 0x6A);
    assert_eq!(d.snapshot.memory.len(), 4096);
}

#[test]
fn controls_pause_step_and_reset() {
    let mut d = DebugState::new();
    d.toggle_pause();
    assert!(d.paused);
    assert!(!d.should_execute());
    d.request_step();
    assert!(d.paused && d.step_requested);
    assert!(d.should_execute());
    d.step_requested = false;
    d.toggle_pause();
    assert!(!d.paused);
    d.request_reset();
    assert!(d.paused && d.reset_requested);
}

#[test]
fn toggle_breakpoint_twice_restores() {
    let mut bps: HashSet<u16> = HashSet::new();
    toggle_breakpoint(&mut bps, 0x204);
    assert!(bps.contains(&0x204));
    toggle_breakpoint(&mut bps, 0x206);
    toggle_breakpoint(&mut bps, 0x204);
    assert!(!bps.contains(&0x204));
    assert!(bps.contains(&0x206));
    assert_eq!(bps.len(), 1);
}

#[test]
fn disassembly_view_start() {
    assert_eq!(disassembly_start(0x200), 0x200 - 20);
    assert_eq!(disassembly_start(0x215), 0x200);
    assert_eq!(disassembly_start(0x216), 0x202);
    assert_eq!(disassembly_start(19), 0x200);
    assert_eq!(disassembly_start(20), 0);
}

#[test]
fn tone_follows_sound_timer() {
    let mut t = ToneState::new();
    assert!(!t.is_playing);
    assert_eq!(t.update(false), ToneCommand::Keep);
    assert_eq!(t.update(true), ToneCommand::Play);
    assert!(t.is_playing);
    assert_eq!(t.update(true), ToneCommand::Keep);
    assert_eq!(t.update(false), ToneCommand::Pause);
    assert!(!t.is_playing);
}

#[test]
fn run_frame_does_nothing_while_paused() {
    let mut c8 = Chip8::new();
    let _ = c8.load_rom(&[0x60, 0x01]);
    let mut d = DebugState::new();
    d.toggle_pause();
    assert_eq!(d.run_frame(&mut c8, 10), Ok(0));
    assert_eq!(c8.program_counter(), 0x200);
}

#[test]
fn run_frame_single_step() {
    let mut c8 = Chip8::new();
    let _ = c8.load_rom(&[0x60, 0x01, 0x61, 0x02]);
    let mut d = DebugState::new();
    d.request_step();
    assert_eq!(d.run_frame(&mut c8, 0), Ok(1));
    assert_eq!(c8.program_counter(), 0x202);
    assert!(!d.step_requested);
    assert!(d.paused);
    assert_eq!(d.run_frame(&mut c8, 5), Ok(0));
}

#[test]
fn run_frame_stops_at_breakpoint() {
    // four loads, then a jump back to the start
    let mut c8 = Chip8::new();
    let _ = c8.load_rom(&[0x60, 0x01, 0x61, 0x02, 0x62, 0x03, 0x63, 0x04, 0x12, 0x00]);
    let mut d = DebugState::new();
    toggle_breakpoint(&mut d.breakpoints, 0x206);
    assert_eq!(d.run_frame(&mut c8, 100), Ok(3));
    assert_eq!(c8.program_counter(), 0x206);
    assert!(d.paused);
    assert_eq!(c8.registers()[2], 3);
    assert_eq!(c8.registers()[3], 0);
}

#[test]
fn run_frame_runs_requested_cycles() {
    let mut c8 = Chip8::new();
    let _ = c8.load_rom(&[0x70, 0x01, 0x12, 0x00]);
    let mut d = DebugState::new();
    assert_eq!(d.run_frame(&mut c8, 8), Ok(8));
    assert_eq!(c8.registers()[0], 4);
    assert!(!d.paused);
}

#[test]
fn run_frame_reports_fault() {
    let mut c8 = Chip8::new();
    let _ = c8.load_rom(&[0x60, 0x01, 0x00, 0xEE]);
    let mut d = DebugState::new();
    assert_eq!(d.run_frame(&mut c8, 10), Err(1));
    assert_eq!(c8.program_counter(), 0x202);
}

#[test]
fn memory_row_text_matches_formatter() {
    let memory: Vec<u8> = (0..40u32).map(|i| (i * 37 % 256) as u8).collect();
    for row_start in [0usize, 16, 32, 48] {
        let mut expected = format!("{:#06X}: ", row_start);
        for col in 0..16 {
            let addr = row_start + col;
            if addr < memory.len() {
                expected.push_str(&format!("{:02X} ", memory[addr]));
            }
            if col == 7 {
                expected.push(' ');
            }
        }
        assert_eq!(memory_row_text(&memory, row_start), expected);
    }
    assert_eq!(memory_row_text(&[0xAB, 0x01], 0), "0x0000: AB 01  ");
}

#[test]
fn disassembly_line_marks_breakpoints() {
    assert_eq!(disassembly_line(0x200, 0x00E0, "CLS", false), "    0x0200: 0x00E0  CLS");
    assert_eq!(disassembly_line(0x2AE, 0xD125, "DRW  V1, V2, 5", true), "(*) 0x02AE: 0xD125  DRW  V1, V2, 5");
    for (addr, op) in [(0u16, 0u16), (0xFFFE, 0xFFFF), (0x123, 0xABC)] {
        assert_eq!(
            disassembly_line(addr, op, "X", false),
            format!("{} {:#06X}: {:#06X}  {}", "   ", addr, op, "X")
        );
    }
}

#[test]
fn apply_reset_reloads_rom_and_clears_request() {
    let rom = [0x60, 0x07];
    let mut c8 = Chip8::new();
    let _ = c8.load_rom(&rom);
    c8.tick();
    let mut d = DebugState::new();
    d.apply_reset(&mut c8, &rom);
    assert_eq!(c8.program_counter(), 0x202);
    d.request_reset();
    d.apply_reset(&mut c8, &rom);
    assert!(!d.reset_requested);
    assert!(d.paused);
    assert_eq!(c8.program_counter(), 0x200);
    assert_eq!(c8.registers()[0], 0);
    assert_eq!(c8.memory()[0x200], 0x60);
}

#[test]
fn controls_leave_snapshot_alone() {
    let mut c8 = Chip8::new();
    let _ = c8.load_rom(&[0x6A, 0x42]);
    c8.tick();
    let mut d = DebugState::new();
    d.update(&c8);
    d.toggle_pause();
    d.request_step();
    d.request_reset();
    assert_eq!(d.snapshot.regs[0xA], 0x42);
    assert_eq!(d.snapshot.PC, 0x202);
}

#[test]
fn stack_view_matches_formatter() {
    let mut stack = [0u16; 16];
    for i in 0..16 {
        stack[i] = 0x200 + 0x1F3 * i as u16;
    }
    for sp in 0..=16u8 {
        let mut expected = vec![format!("SP: {}", sp)];
        if sp == 0 {
            expected.push("(empty)".to_string());
        } else {
            for i in (0..sp as usize).rev() {
                let marker = if i == (sp as usize) - 1 { ">" } else { " " };
                expected.push(format!("{} [{:2}] {:#06X}", marker, i, stack[i]));
            }
        }
        assert_eq!(stack_view_lines(sp, &stack), expected);
    }
    assert_eq!(stack_view_lines(2, &stack), vec!["SP: 2", "> [ 1] 0x03F3", "  [ 0] 0x0200"]);
}

#[test]
fn register_view_matches_formatter() {
    let regs: [u8; 16] = [0, 1, 0x0A, 0xFF, 4, 5, 6, 7, 8, 9, 10, 11, 12, 13, 14, 0xF0];
    let lines = register_view_lines(&regs, 0x0ABC, 0x0202, 3);
    let mut expected: Vec<String> = (0..16).map(|i| format!("V{:X}: {:02X}", i, regs[i])).collect();
    expected.push(format!("I:  {:#06X}", 0x0ABCu16));
    expected.push(format!("PC: {:#06X}", 0x0202u16));
    expected.push(format!("SP: {:#04X}", 3u8));
    assert_eq!(lines, expected);
    assert_eq!(lines[3], "V3: FF");
    assert_eq!(lines[18], "SP: 0x03");
}

#[test]
fn timer_view_matches_formatter() {
    for (dt, st) in [(0u8, 0u8), (9, 10), (99, 100), (255, 7)] {
        let lines = timer_view_lines(dt, st, false);
        assert_eq!(
            lines,
            vec![format!("Delay: {:#04X} ({})", dt, dt), format!("Sound: {:#04X} ({})", st, st)]
        );
    }
    let lines = timer_view_lines(0x3C, 1, true);
    assert_eq!(lines, vec!["Delay: 0x3C (60)", "Sound: 0x01 (1)", "Waiting for key press..."]);
}

#[test]
fn current_instruction_view() {
    assert_eq!(current_instruction_lines(0x204, 0xD125), vec!["0x0204: 0xD125", "        DRW  V1, V2, 5"]);
    assert_eq!(
        current_instruction_lines(0x0FFE, 0x00EE),
        vec![format!("{:#06X}: {:#06X}", 0x0FFEu16, 0x00EEu16), "        RET".to_string()]
    );
}
