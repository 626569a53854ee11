use std::collections::HashSet;
use vstd::prelude::*;

use crate::chip8::{power_on_with, run_ticks, tick_safe, tick_spec, Chip8, MAX_ROM_SIZE};
use crate::cpu::{MEMORY_SIZE, PROGRAM_START};
use crate::keypad::KEY_COUNT;
use crate::disassembler::{disassemble, disassembly};
use crate::text::{decimal, hex_digits, hex_literal, push_char, push_decimal, push_hex, push_hex_literal};

verus! {

broadcast use vstd::std_specs::hash::group_hash_axioms;

/// A copy of the machine's state taken for display by the debugger.
#[derive(Clone)]
pub struct EmulatorSnapshot {
    pub regs: [u8; 16],
    pub index: u16,
    pub PC: u16,
    pub SP: u8,
    pub stack: [u16; 16],
    pub DT: u8,
    pub ST: u8,

    pub waiting: bool,
    pub memory: Vec<u8>,
    pub current_opcode: u16,
}

/// Whether `s` is the snapshot shown before the machine is first read:
/// registers, timers and stack zero, the program counter at the start of
/// the program, not waiting, and memory of zeros.
pub open spec fn is_blank_snapshot(s: EmulatorSnapshot) -> bool {
    &&& s.regs@ == Seq::new(16, |i: int| 0u8)
    &&& s.index == 0
    &&& s.PC == PROGRAM_START
    &&& s.SP == 0
    &&& s.stack@ == Seq::new(16, |i: int| 0u16)
    &&& s.DT == 0
    &&& s.ST == 0
    &&& !s.waiting
    &&& s.memory@ == Seq::new(MEMORY_SIZE as nat, |i: int| 0u8)
    &&& s.current_opcode == 0
}

impl Default for EmulatorSnapshot {
    /// The snapshot shown before the machine is first read.
    fn default() -> (s: Self)
        ensures
            is_blank_snapshot(s),
    {
        let s = Self {
            regs: [0; 16],
            index: 0,
            PC: 0x200,
            SP: 0,
            stack: [0x0; 16],
            DT: 0,
            ST: 0,

            waiting: false,
            memory: vstd::slice::slice_to_vec(&[0u8; MEMORY_SIZE]),
            current_opcode: 0,
        };
        assert(s.regs@ =~= Seq::new(16, |i: int| 0u8));
        assert(s.stack@ =~= Seq::new(16, |i: int| 0u16));
        assert(s.memory@ =~= Seq::new(MEMORY_SIZE as nat, |i: int| 0u8));
        s
    }
}

/// The debugger: the latest snapshot, whether execution is paused, whether
/// one step or a reset was asked for, and the breakpoint addresses.
pub struct DebugState {
    pub snapshot: EmulatorSnapshot,
    pub paused: bool,
    pub step_requested: bool,
    pub breakpoints: HashSet<u16>,
    pub reset_requested: bool,
}

impl DebugState {
    /// A running debugger with no breakpoints and a power-on snapshot.
    pub fn new() -> (d: Self)
        ensures
            !d.paused,
            !d.step_requested,
            !d.reset_requested,
            d.breakpoints@ == Set::<u16>::empty(),
            is_blank_snapshot(d.snapshot),
    {
        DebugState {
            snapshot: EmulatorSnapshot::default(),
            paused: false,
            step_requested: false,
            breakpoints: HashSet::new(),
            reset_requested: false,
        }
    }

    /// Copies the machine's registers, timers, stack and memory into the
    /// snapshot, with the opcode at the program counter when a whole opcode
    /// lies there.
    pub fn update(&mut self, c: &Chip8)
        ensures
            final(self).snapshot.regs@ == c@.cpu.regs,
            final(self).snapshot.index == c@.cpu.index,
            final(self).snapshot.PC == c@.cpu.pc,
            final(self).snapshot.SP == c@.cpu.sp,
            final(self).snapshot.stack@ == c@.cpu.stack,
            final(self).snapshot.DT == c@.cpu.dt,
            final(self).snapshot.ST == c@.cpu.st,
            final(self).snapshot.memory@ == c@.memory,
            final(self).snapshot.waiting == (c@.cpu.waiting is Some),
            final(self).snapshot.current_opcode == if c@.cpu.pc + 1 < MEMORY_SIZE {
                (c@.memory[c@.cpu.pc as int] * 256 + c@.memory[c@.cpu.pc + 1]) as u16
            } else {
                old(self).snapshot.current_opcode
            },
            final(self).paused == old(self).paused,
            final(self).step_requested == old(self).step_requested,
            final(self).reset_requested == old(self).reset_requested,
            final(self).breakpoints == old(self).breakpoints,
    {
        proof {
            c.lemma_sizes();
        }
        let s = &mut self.snapshot;

        s.regs = *c.registers();
        s.index = c.index_register();
        s.PC = c.program_counter();
        s.SP = c.stack_pointer();
        s.stack = *c.stack();
        s.DT = c.delay_timer();
        s.ST = c.sound_timer();

        s.memory = vstd::slice::slice_to_vec(c.memory());
        s.waiting = c.waiting();

        let pc = s.PC as usize;
        if pc + 1 < s.memory.len() {
            let high = s.memory[pc];
            let low = s.memory[pc + 1];
            assert((high as u16) << 8 | (low as u16) == high * 256 + low) by (bit_vector);
            s.current_opcode = (high as u16) << 8 | (low as u16);
        }
    }

    /// Whether the machine should run this frame: it is not paused, or a
    /// single step was asked for.
    pub fn should_execute(&self) -> (b: bool)
        ensures
            b == (!self.paused || self.step_requested),
    {
        !self.paused || self.step_requested
    }

    /// Runs the machine for one frame when the debugger lets it run: up to
    /// `cycles` instructions, at least one, stopping after an instruction
    /// that leaves the program counter on a breakpoint, which pauses. A
    /// pending single step is then cleared. Returns the number of
    /// instructions run, or, as an error, the number run before the next one
    /// would leave the machine (see `tick_safe`).
    pub fn run_frame(&mut self, c8: &mut Chip8, cycles: usize) -> (res: Result<usize, usize>)
        ensures
            final(self).snapshot == old(self).snapshot,
            final(self).breakpoints == old(self).breakpoints,
            final(self).reset_requested == old(self).reset_requested,
            !(!old(self).paused || old(self).step_requested) ==> {
                &&& res == Ok::<usize, usize>(0)
                &&& final(c8)@ == old(c8)@
                &&& final(self).paused == old(self).paused
                &&& final(self).step_requested == old(self).step_requested
            },
            (!old(self).paused || old(self).step_requested) ==> {
                let n = match res {
                    Ok(n) => n,
                    Err(n) => n,
                };
                let limit = if cycles > 1 { cycles } else { 1 };
                &&& n <= limit
                &&& !final(self).step_requested
                &&& exists|rs: Seq<u8>|
                    #![trigger run_ticks(old(c8)@, rs)]
                    {
                        &&& rs.len() == n
                        &&& run_ticks(old(c8)@, rs) == final(c8)@
                        &&& forall|j: int|
                            1 <= j < n ==> !old(self).breakpoints@.contains(
                                #[trigger] run_ticks(old(c8)@, rs.take(j)).cpu.pc,
                            )
                    }
                &&& res is Ok ==> 1 <= n && (n == limit || old(self).breakpoints@.contains(final(c8)@.cpu.pc))
                &&& res is Ok ==> final(self).paused == (old(self).paused || old(self).breakpoints@.contains(
                    final(c8)@.cpu.pc,
                ))
                &&& res is Err ==> !tick_safe(final(c8)@) && final(self).paused == old(self).paused
                &&& res is Err && n > 0 ==> !old(self).breakpoints@.contains(final(c8)@.cpu.pc)
            },
    {
        if !self.should_execute() {
            return Ok(0);
        }
        let limit = if cycles > 1 { cycles } else { 1 };
        let ghost start = c8@;
        let ghost mut rs: Seq<u8> = Seq::empty();
        let mut n: usize = 0;
        let mut stopped = false;
        assert(rs.take(0) =~= rs);
        while n < limit && !stopped
            invariant
                n <= limit,
                limit == if cycles > 1 { cycles } else { 1 },
                !old(self).paused || old(self).step_requested,
                start == old(c8)@,
                rs.len() == n,
                run_ticks(start, rs) == c8@,
                self.snapshot == old(self).snapshot,
                self.breakpoints == old(self).breakpoints,
                self.reset_requested == old(self).reset_requested,
                self.step_requested == old(self).step_requested,
                forall|j: int|
                    1 <= j < n ==> !self.breakpoints@.contains(#[trigger] run_ticks(start, rs.take(j)).cpu.pc),
                stopped ==> 1 <= n && self.breakpoints@.contains(c8@.cpu.pc) && self.paused,
                !stopped ==> self.paused == old(self).paused,
                !stopped && n > 0 ==> !self.breakpoints@.contains(c8@.cpu.pc),
            decreases limit - n,
        {
            if !c8.can_tick() {
                self.step_requested = false;
                assert(rs.take(n as int) =~= rs);
                return Err(n);
            }
            let ghost before = c8@;
            c8.tick();
            proof {
                let r = choose|r: u8| c8@ == tick_spec(before, r);
                let rs2 = rs.push(r);
                lemma_run_ticks_push(start, rs, r);
                assert forall|j: int| 1 <= j < n + 1 implies !self.breakpoints@.contains(
                    #[trigger] run_ticks(start, rs2.take(j)).cpu.pc,
                ) by {
                    if j < n {
                        assert(rs2.take(j) =~= rs.take(j));
                    } else {
                        assert(rs2.take(j) =~= rs);
                    }
                }
                rs = rs2;
            }
            n += 1;

            if self.breakpoints.contains(&c8.program_counter()) {
                self.paused = true;
                stopped = true;
            }
        }
        assert(rs.take(n as int) =~= rs);
        self.step_requested = false;
        Ok(n)
    }

    /// Carries out a pending reset: the machine is replaced by one at
    /// power-on with `rom` loaded, and the request is cleared. Without a
    /// pending reset nothing changes.
    pub fn apply_reset(&mut self, c8: &mut Chip8, rom: &[u8])
        requires
            rom@.len() <= MEMORY_SIZE - PROGRAM_START || rom@.len() > MAX_ROM_SIZE,
        ensures
            old(self).reset_requested ==> final(c8)@ == power_on_with(rom@),
            !old(self).reset_requested ==> final(c8)@ == old(c8)@,
            !final(self).reset_requested,
            final(self).snapshot == old(self).snapshot,
            final(self).paused == old(self).paused,
            final(self).step_requested == old(self).step_requested,
            final(self).breakpoints == old(self).breakpoints,
    {
        if self.reset_requested {
            *c8 = Chip8::new();
            let _ = c8.load_rom(rom);
            proof {
                c8.lemma_sizes();
                assert(c8@.keys =~= Seq::new(KEY_COUNT as nat, |i: int| false));
            }
            self.reset_requested = false;
        }
    }

    /// The Pause/Resume control: flips whether execution is paused.
    pub fn toggle_pause(&mut self)
        ensures
            final(self).snapshot == old(self).snapshot,
            final(self).paused == !old(self).paused,
            final(self).step_requested == old(self).step_requested,
            final(self).reset_requested == old(self).reset_requested,
            final(self).breakpoints == old(self).breakpoints,
    {
        self.paused = !self.paused;
    }

    /// The Step control: pauses and asks for one step.
    pub fn request_step(&mut self)
        ensures
            final(self).snapshot == old(self).snapshot,
            final(self).paused,
            final(self).step_requested,
            final(self).reset_requested == old(self).reset_requested,
            final(self).breakpoints == old(self).breakpoints,
    {
        self.paused = true;
        self.step_requested = true;
    }

    /// The Reset control: pauses and asks for the machine to be reset.
    pub fn request_reset(&mut self)
        ensures
            final(self).snapshot == old(self).snapshot,
            final(self).paused,
            final(self).reset_requested,
            final(self).step_requested == old(self).step_requested,
            final(self).breakpoints == old(self).breakpoints,
    {
        self.reset_requested = true;
        self.paused = true;
    }
}

/// `set` with `addr` removed if it holds it, and added otherwise.
pub open spec fn toggled(set: Set<u16>, addr: u16) -> Set<u16> {
    if set.contains(addr) {
        set.remove(addr)
    } else {
        set.insert(addr)
    }
}

/// One more tick after `rs` is one more byte at the end of `rs`.
proof fn lemma_run_ticks_push(m: crate::chip8::Chip8State, rs: Seq<u8>, r: u8)
    ensures
        run_ticks(m, rs.push(r)) == tick_spec(run_ticks(m, rs), r),
{
    assert(rs.push(r).drop_last() =~= rs);
}

/// Removes `addr` from the breakpoints if it is one, and adds it otherwise.
pub fn toggle_breakpoint(breakpoints: &mut HashSet<u16>, addr: u16)
    ensures
        final(breakpoints)@ == toggled(old(breakpoints)@, addr),
{
    if !breakpoints.remove(&addr) {
        breakpoints.insert(addr);
    }
}

/// The first address the disassembly view lists for program counter `pc`:
/// ten instructions back, rounded down to an even address, or the start of
/// the program when `pc` is below 20.
pub fn disassembly_start(pc: u16) -> (a: u16)
    ensures
        a == if pc >= 20 {
            ((pc - 20) / 2 * 2) as u16
        } else {
            PROGRAM_START
        },
{
    if pc >= 20 {
        let d: u16 = pc - 20;
        assert(d & 0xFFFE == d / 2 * 2) by (bit_vector);
        d & 0xFFFE
    } else {
        0x200
    }
}


/// Bytes shown on one row of the memory view.
pub const MEMORY_ROW_BYTES: usize = 16;

/// The first `k` cells of the memory-view row starting at `row_start`: each
/// byte that exists as two upper-case hex digits and a space, with one more
/// space after the eighth cell.
pub open spec fn memory_row_cells(mem: Seq<u8>, row_start: int, k: nat) -> Seq<char>
    decreases k,
{
    if k == 0 {
        Seq::empty()
    } else {
        let col = k - 1;
        let cell = if row_start + col < mem.len() {
            hex_digits(mem[row_start + col] as nat, 2, true) + " "@
        } else {
            Seq::empty()
        };
        let gap = if col == 7 {
            " "@
        } else {
            Seq::empty()
        };
        memory_row_cells(mem, row_start, (k - 1) as nat) + cell + gap
    }
}

/// One row of the memory view: the address as `0x` and four hex digits, a
/// colon and a space, then the cells.
pub open spec fn memory_row(mem: Seq<u8>, row_start: int) -> Seq<char> {
    hex_literal(row_start as nat, 4) + ": "@ + memory_row_cells(mem, row_start, MEMORY_ROW_BYTES as nat)
}

/// The text of the memory-view row that starts at `row_start`.
pub fn memory_row_text(memory: &[u8], row_start: usize) -> (text: String)
    requires
        row_start + MEMORY_ROW_BYTES <= 0x10000,
    ensures
        text@ == memory_row(memory@, row_start as int),
{
    let mut text = String::new();
    push_hex_literal(&mut text, row_start as u32, 4);
    text.append(": ");
    let ghost head = text@;
    let mut col: usize = 0;
    while col < MEMORY_ROW_BYTES
        invariant
            col <= MEMORY_ROW_BYTES,
            row_start + MEMORY_ROW_BYTES <= 0x10000,
            text@ == head + memory_row_cells(memory@, row_start as int, col as nat),
        decreases MEMORY_ROW_BYTES - col,
    {
        let addr = row_start + col;
        let ghost before = text@;
        if addr < memory.len() {
            push_hex(&mut text, memory[addr] as u32, 2, true);
            push_char(&mut text, ' ');
        }
        if col == 7 {
            push_char(&mut text, ' ');
        }
        proof {
            let cell = if row_start + col < memory@.len() {
                hex_digits(memory@[row_start + col] as nat, 2, true) + " "@
            } else {
                Seq::empty()
            };
            let gap = if col == 7 {
                " "@
            } else {
                Seq::empty()
            };
            reveal_strlit(" ");
            assert(text@ =~= before + cell + gap);
            assert(text@ =~= head + memory_row_cells(memory@, row_start as int, (col + 1) as nat));
        }
        col += 1;
    }
    text
}

/// One line of the disassembly view: `(*)` for a breakpoint or three spaces,
/// a space, the address and the opcode as `0x` and four hex digits separated
/// by a colon and a space, two spaces and the assembly text.
pub open spec fn disassembly_line_spec(addr: u16, opcode: u16, instruction: Seq<char>, breakpoint: bool) -> Seq<char> {
    (if breakpoint {
        "(*)"@
    } else {
        "   "@
    }) + " "@ + hex_literal(addr as nat, 4) + ": "@ + hex_literal(opcode as nat, 4) + "  "@ + instruction
}

/// The text of one line of the disassembly view.
pub fn disassembly_line(addr: u16, opcode: u16, instruction: &str, breakpoint: bool) -> (text: String)
    ensures
        text@ == disassembly_line_spec(addr, opcode, instruction@, breakpoint),
{
    let mut text = String::new();
    if breakpoint {
        text.append("(*)");
    } else {
        text.append("   ");
    }
    text.append(" ");
    push_hex_literal(&mut text, addr as u32, 4);
    text.append(": ");
    push_hex_literal(&mut text, opcode as u32, 4);
    text.append("  ");
    text.append(instruction);
    assert(text@ =~= disassembly_line_spec(addr, opcode, instruction@, breakpoint));
    text
}


/// Stack slot number `i` (below 100) right-aligned in two columns.
pub open spec fn slot_number(i: nat) -> Seq<char> {
    if i < 10 {
        " "@ + decimal(i)
    } else {
        decimal(i)
    }
}

/// Line of the stack view for slot `i`: `>` on the top slot and a space
/// elsewhere, the slot number in brackets, and the address there as `0x`
/// and four hex digits.
pub open spec fn stack_slot_line(sp: nat, stack: Seq<u16>, i: int) -> Seq<char> {
    (if i == sp - 1 {
        ">"@
    } else {
        " "@
    }) + " ["@ + slot_number(i as nat) + "] "@ + hex_literal(stack[i] as nat, 4)
}

/// The lines of the stack view: the stack pointer in decimal, then
/// `(empty)` for an empty stack, or else the occupied slots from the top
/// down.
pub open spec fn stack_view_spec(sp: nat, stack: Seq<u16>) -> Seq<Seq<char>> {
    seq!["SP: "@ + decimal(sp)] + if sp == 0 {
        seq!["(empty)"@]
    } else {
        Seq::new(sp, |k: int| stack_slot_line(sp, stack, sp - 1 - k))
    }
}

/// The lines of the register view: `Vx: kk` for each register, then the
/// index register, the program counter and the stack pointer.
pub open spec fn register_view_spec(regs: Seq<u8>, index: u16, pc: u16, sp: u8) -> Seq<Seq<char>> {
    Seq::new(16, |i: int| "V"@ + hex_digits(i as nat, 1, true) + ": "@ + hex_digits(regs[i] as nat, 2, true))
        + seq![
        "I:  "@ + hex_literal(index as nat, 4),
        "PC: "@ + hex_literal(pc as nat, 4),
        "SP: "@ + hex_literal(sp as nat, 2),
    ]
}

/// The lines of the timer view: each timer in hex and in decimal, and a
/// notice while the CPU waits for a key.
pub open spec fn timer_view_spec(dt: u8, st: u8, waiting: bool) -> Seq<Seq<char>> {
    seq![
        "Delay: "@ + hex_literal(dt as nat, 2) + " ("@ + decimal(dt as nat) + ")"@,
        "Sound: "@ + hex_literal(st as nat, 2) + " ("@ + decimal(st as nat) + ")"@,
    ] + if waiting {
        seq!["Waiting for key press..."@]
    } else {
        Seq::empty()
    }
}

/// The lines of the current-instruction view: the address and the opcode,
/// then its assembly text indented by eight spaces.
pub open spec fn current_instruction_spec(pc: u16, opcode: u16) -> Seq<Seq<char>> {
    seq![
        hex_literal(pc as nat, 4) + ": "@ + hex_literal(opcode as nat, 4),
        "        "@ + disassembly(opcode),
    ]
}

/// The texts of `lines` agree with `spec`.
pub open spec fn lines_are(lines: Seq<String>, spec: Seq<Seq<char>>) -> bool {
    &&& lines.len() == spec.len()
    &&& forall|i: int| 0 <= i < lines.len() ==> (#[trigger] lines[i])@ == spec[i]
}

/// The lines of the stack view (see `stack_view_spec`).
pub fn stack_view_lines(sp: u8, stack: &[u16; 16]) -> (lines: Vec<String>)
    requires
        sp <= 16,
    ensures
        lines_are(lines@, stack_view_spec(sp as nat, stack@)),
{
    let mut lines: Vec<String> = Vec::new();
    let mut head = String::from_str("SP: ");
    push_decimal(&mut head, sp as u32);
    lines.push(head);
    if sp == 0 {
        lines.push(String::from_str("(empty)"));
        return lines;
    }
    let ghost spec = stack_view_spec(sp as nat, stack@);
    let n = sp as usize;
    let mut k: usize = 0;
    while k < n
        invariant
            k <= n,
            n == sp,
            1 <= sp <= 16,
            spec == stack_view_spec(sp as nat, stack@),
            lines@.len() == k + 1,
            forall|j: int| 0 <= j < k + 1 ==> (#[trigger] lines@[j])@ == spec[j],
        decreases n - k,
    {
        let i = n - 1 - k;
        let mut line = if i == n - 1 {
            String::from_str(">")
        } else {
            String::from_str(" ")
        };
        line.append(" [");
        if i < 10 {
            line.append(" ");
        }
        push_decimal(&mut line, i as u32);
        line.append("] ");
        push_hex_literal(&mut line, stack[i] as u32, 4);
        assert(line@ =~= stack_slot_line(sp as nat, stack@, i as int));
        assert(spec[k + 1] == stack_slot_line(sp as nat, stack@, i as int));
        lines.push(line);
        k += 1;
    }
    lines
}

/// The lines of the register view (see `register_view_spec`).
pub fn register_view_lines(regs: &[u8; 16], index: u16, pc: u16, sp: u8) -> (lines: Vec<String>)
    ensures
        lines_are(lines@, register_view_spec(regs@, index, pc, sp)),
{
    let ghost spec = register_view_spec(regs@, index, pc, sp);
    let mut lines: Vec<String> = Vec::new();
    let mut i: usize = 0;
    while i < 16
        invariant
            i <= 16,
            spec == register_view_spec(regs@, index, pc, sp),
            lines@.len() == i,
            forall|j: int| 0 <= j < i ==> (#[trigger] lines@[j])@ == spec[j],
        decreases 16 - i,
    {
        let mut line = String::from_str("V");
        push_hex(&mut line, i as u32, 1, true);
        line.append(": ");
        push_hex(&mut line, regs[i] as u32, 2, true);
        lines.push(line);
        i += 1;
    }
    let mut l = String::from_str("I:  ");
    push_hex_literal(&mut l, index as u32, 4);
    lines.push(l);
    let mut l = String::from_str("PC: ");
    push_hex_literal(&mut l, pc as u32, 4);
    lines.push(l);
    let mut l = String::from_str("SP: ");
    push_hex_literal(&mut l, sp as u32, 2);
    lines.push(l);
    lines
}

/// Appends one timer line: a label, the value in hex, and in decimal in
/// parentheses.
fn timer_line(label: &str, v: u8) -> (line: String)
    ensures
        line@ == label@ + hex_literal(v as nat, 2) + " ("@ + decimal(v as nat) + ")"@,
{
    let mut line = String::from_str(label);
    push_hex_literal(&mut line, v as u32, 2);
    line.append(" (");
    push_decimal(&mut line, v as u32);
    line.append(")");
    line
}

/// The lines of the timer view (see `timer_view_spec`).
pub fn timer_view_lines(dt: u8, st: u8, waiting: bool) -> (lines: Vec<String>)
    ensures
        lines_are(lines@, timer_view_spec(dt, st, waiting)),
{
    let mut lines: Vec<String> = Vec::new();
    lines.push(timer_line("Delay: ", dt));
    lines.push(timer_line("Sound: ", st));
    if waiting {
        lines.push(String::from_str("Waiting for key press..."));
    }
    assert(lines@.len() == timer_view_spec(dt, st, waiting).len());
    lines
}

/// The lines of the current-instruction view (see `current_instruction_spec`).
pub fn current_instruction_lines(pc: u16, opcode: u16) -> (lines: Vec<String>)
    ensures
        lines_are(lines@, current_instruction_spec(pc, opcode)),
{
    let mut first = String::new();
    push_hex_literal(&mut first, pc as u32, 4);
    first.append(": ");
    push_hex_literal(&mut first, opcode as u32, 4);
    let mut second = String::from_str("        ");
    let text = disassemble(opcode);
    second.append(text.as_str());
    let mut lines: Vec<String> = Vec::new();
    lines.push(first);
    lines.push(second);
    assert(lines@[0]@ =~= current_instruction_spec(pc, opcode)[0]);
    lines
}

} // verus!
