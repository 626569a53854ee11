use chip8::disassembler::{disassemble, disassemble_reigon};

/// Assembly text as the standard formatter writes it, for comparison.
fn expected_text(opcode: u16) -> String {
    let nnn = opcode & 0x0FFF;
    let nn = (opcode & 0x00FF) as u8;
    let n = (opcode & 0x000F) as u8;
    let x = ((opcode & 0x0F00) >> 8) as usize;
    let y = ((opcode & 0x00F0) >> 4) as usize;
    match opcode & 0xF000 {
        0x0000 => match opcode {
            0x00E0 => "CLS".to_string(),
            0x00EE => "RET".to_string(),
            _ => format!("SYS  {:#05X}", nnn),
        },
        0x1000 => format!("JP   {:#05X}", nnn),
        0x2000 => format!("CALL {:#05X}", nnn),
        0x3000 => format!("SE   V{:X}, {:#04X}", x, nn),
        0x4000 => format!("SNE  V{:X}, {:#04X}", x, nn),
        0x5000 => format!("SE   V{:X}, V{:X}", x, y),
        0x6000 => format!("LD   V{:X}, {:#04X}", x, nn),
        0x7000 => format!("ADD  V{:X}, {:#04X}", x, nn),
        0x8000 => match opcode & 0x000F {
            0x0 => format!("LD   V{:X}, V{:X}", x, y),
            0x1 => format!("OR   V{:X}, V{:X}", x, y),
            0x2 => format!("AND  V{:X}, V{:X}", x, y),
            0x3 => format!("XOR  V{:X}, V{:X}", x, y),
            0x4 => format!("ADD  V{:X}, V{:X}", x, y),
            0x5 => format!("SUB  V{:X}, V{:X}", x, y),
            0x6 => format!("SHR  V{:X}", x),
            0x7 => format!("SUBN V{:X}, V{:X}", x, y),
            0xE => format!("SHL  V{:X}", x),
            _ => format!("???  {:#06X}", opcode),
        },
        0x9000 => format!("SNE  V{:X}, V{:X}", x, y),
        0xA000 => format!("LD   I, {:#05X}", nnn),
        0xB000 => format!("JP   V0, {:#05X}", nnn),
        0xC000 => format!("RND  V{:X}, {:#04X}", x, nn),
        0xD000 => format!("DRW  V{:X}, V{:X}, {}", x, y, n),
        0xE000 => match opcode & 0x00FF {
            0x9E => format!("SKP  V{:X}", x),
            0xA1 => format!("SKNP V{:X}", x),
            _ => format!("???  {:#06X}", opcode),
        },
        _ => match opcode & 0x00FF {
            0x07 => format!("LD   V{:X}, DT", x),
            0x0A => format!("LD   V{:X}, K", x),
            0x15 => format!("LD   DT, V{:X}", x),
            0x18 => format!("LD   ST, V{:X}", x),
            0x1E => format!("ADD  I, V{:X}", x),
            0x29 => format!("LD   F, V{:X}", x),
            0x33 => format!("LD   B, V{:X}", x),
            0x55 => format!("LD   [I], V{:X}", x),
            0x65 => format!("LD   V{:X}, [I]", x),
            _ => format!("???  {:#06X}", opcode),
        },
    }
}

#[test]
fn disassemble_every_opcode_matches_formatter() {
    for op in 0..=u16::MAX {
        assert_eq!(disassemble(op), expected_text(op), "opcode {:#06X}", op);
    }
}

#[test]
fn disassemble_examples() {
    assert_eq!(disassemble(0x00E0), "CLS");
    assert_eq!(disassemble(0x00EE), "RET");
    assert_eq!(disassemble(0x0123), "SYS  0x123");
    assert_eq!(disassemble(0x1234), "JP   0x234");
    assert_eq!(disassemble(0x2ABC), "CALL 0xABC");
    assert_eq!(disassemble(0x3A0F), "SE   VA, 0x0F");
    assert_eq!(disassemble(0x5120), "SE   V1, V2");
    assert_eq!(disassemble(0x8126), "SHR  V1");
    assert_eq!(disassemble(0x812F), "???  0x812F");
    assert_eq!(disassemble(0xB00A), "JP   V0, 0x00A");
    assert_eq!(disassemble(0xD12F), "DRW  V1, V2, 15");
    assert_eq!(disassemble(0xD125), "DRW  V1, V2, 5");
    assert_eq!(disassemble(0xE1A1), "SKNP V1");
    assert_eq!(disassemble(0xE1FF), "???  0xE1FF");
    assert_eq!(disassemble(0xF355), "LD   [I], V3");
    assert_eq!(disassemble(0xF365), "LD   V3, [I]");
    assert_eq!(disassemble(0xF0FF), "???  0xF0FF");
}

#[test]
fn disassemble_region_lists_consecutive_opcodes() {
    let memory = [0x00, 0xE0, 0x12, 0x00, 0x60, 0xFF];
    let listing = disassemble_reigon(&memory, 0, 3);
    assert_eq!(listing.len(), 3);
    assert_eq!(listing[0], (0, 0x00E0, "CLS".to_string()));
    assert_eq!(listing[1], (2, 0x1200, "JP   0x200".to_string()));
    assert_eq!(listing[2], (4, 0x60FF, "LD   V0, 0xFF".to_string()));
}

#[test]
fn disassemble_region_stops_at_end_of_memory() {
    let memory = [0x00, 0xE0, 0x12, 0x00, 0x60];
    let listing = disassemble_reigon(&memory, 0, 30);
    assert_eq!(listing.len(), 2);
    let listing = disassemble_reigon(&memory, 4, 30);
    assert!(listing.is_empty());
    let listing = disassemble_reigon(&memory, 9, 30);
    assert!(listing.is_empty());
}

#[test]
fn disassemble_region_respects_count() {
    let memory = [0u8; 4096];
    let listing = disassemble_reigon(&memory, 0x200, 30);
    assert_eq!(listing.len(), 30);
    assert_eq!(listing[29].0, 0x200 + 58);
    assert_eq!(listing[29].2, "SYS  0x000");
    assert!(disassemble_reigon(&memory, 0x200, 0).is_empty());
}
