use vstd::prelude::*;

use crate::cpu::{
    after_fetch, count_down_timers, initial_cpu, opcode_at, step, step_safe, CpuState, CPU,
    MEMORY_SIZE, PROGRAM_START,
};
use crate::display::{blank_screen, Display};
use crate::font::{font_data, font_spec, FONT_SIZE, FONT_START};
use crate::keypad::{Keypad, KEY_COUNT};

verus! {

/// The largest ROM that `load_rom` accepts: memory above the font.
pub const MAX_ROM_SIZE: usize = MEMORY_SIZE - FONT_START;

/// The whole machine as mathematical values.
pub struct Chip8State {
    pub cpu: CpuState,
    pub memory: Seq<u8>,
    pub display: Seq<bool>,
    pub keys: Seq<bool>,
}

/// Memory at power-on: the font at `FONT_START`, every other byte zero.
pub open spec fn initial_memory() -> Seq<u8> {
    Seq::new(
        MEMORY_SIZE as nat,
        |a: int|
            if FONT_START <= a < FONT_START + FONT_SIZE {
                font_spec()[a - FONT_START]
            } else {
                0u8
            },
    )
}

/// `mem` with `rom` copied to `PROGRAM_START` onwards.
pub open spec fn with_rom(mem: Seq<u8>, rom: Seq<u8>) -> Seq<u8> {
    Seq::new(
        mem.len(),
        |a: int|
            if PROGRAM_START <= a < PROGRAM_START + rom.len() {
                rom[a - PROGRAM_START]
            } else {
                mem[a]
            },
    )
}

/// The machine after one `tick` that drew random byte `r`: fetch the opcode
/// at the program counter, then execute it (an opcode the CPU does not
/// execute leaves the machine as fetched).
pub open spec fn tick_spec(m: Chip8State, r: u8) -> Chip8State {
    let op = opcode_at(m.memory, m.cpu.pc);
    let (c, mem, d, _ok) = step(after_fetch(m.cpu), m.memory, m.display, m.keys, op, r);
    Chip8State { cpu: c, memory: mem, display: d, keys: m.keys }
}

/// The machine after one `tick` for each byte of `rs`, in order, the
/// `i`-th tick drawing random byte `rs[i]`.
pub open spec fn run_ticks(m: Chip8State, rs: Seq<u8>) -> Chip8State
    decreases rs.len(),
{
    if rs.len() == 0 {
        m
    } else {
        tick_spec(run_ticks(m, rs.drop_last()), rs.last())
    }
}

/// A machine at power-on with `rom` loaded, or left empty when `rom` is
/// longer than `MAX_ROM_SIZE`.
pub open spec fn power_on_with(rom: Seq<u8>) -> Chip8State {
    Chip8State {
        cpu: initial_cpu(),
        memory: if rom.len() <= MAX_ROM_SIZE {
            with_rom(initial_memory(), rom)
        } else {
            initial_memory()
        },
        display: blank_screen(),
        keys: Seq::new(KEY_COUNT as nat, |i: int| false),
    }
}

/// Whether a `tick` from `m` stays within the machine (see `step_safe`).
pub open spec fn tick_safe(m: Chip8State) -> bool {
    &&& m.cpu.pc <= 0xFFFD
    &&& step_safe(after_fetch(m.cpu), m.keys, opcode_at(m.memory, m.cpu.pc))
}

/// A CHIP-8 machine: 4 KiB of memory holding the font and the program, the
/// CPU, the screen and the keypad.
pub struct Chip8 {
    pub memory: [u8; MEMORY_SIZE],
    pub cpu: CPU,
    pub display: Display,
    pub keypad: Keypad,
}

impl View for Chip8 {
    type V = Chip8State;

    open spec fn view(&self) -> Chip8State {
        Chip8State {
            cpu: self.cpu@,
            memory: self.memory@,
            display: self.display@,
            keys: self.keypad@,
        }
    }
}

impl Chip8 {
    /// Memory, screen and keypad have their fixed sizes.
    pub proof fn lemma_sizes(&self)
        ensures
            self@.memory.len() == MEMORY_SIZE,
            self@.display.len() == crate::display::BUFFER_SIZE,
            self@.keys.len() == KEY_COUNT,
            self@.display == self.display@,
            self@.keys == self.keypad@,
    {
        self.display.lemma_len();
        self.keypad.lemma_len();
    }

    /// A machine at power-on: the font in memory, the CPU reset, the screen
    /// blank and no key pressed.
    pub fn new() -> (c: Self)
        ensures
            c@.cpu == initial_cpu(),
            c@.memory == initial_memory(),
            c@.display == blank_screen(),
            c@.keys.len() == KEY_COUNT,
            forall|i: int| 0 <= i < KEY_COUNT ==> !#[trigger] c@.keys[i],
    {
        let mut chip8 = Self {
            memory: [0x00; MEMORY_SIZE],
            cpu: CPU::new(),
            display: Display::new(),
            keypad: Keypad::new(),
        };

        let font = font_data();
        let mut i: usize = 0;
        while i < FONT_SIZE
            invariant
                i <= FONT_SIZE,
                font@ == font_spec(),
                chip8.cpu@ == initial_cpu(),
                chip8.display@ == blank_screen(),
                chip8.keypad@.len() == KEY_COUNT,
                forall|k: int| 0 <= k < KEY_COUNT ==> !#[trigger] chip8.keypad@[k],
                chip8.memory@.len() == MEMORY_SIZE,
                forall|a: int|
                    0 <= a < MEMORY_SIZE ==> #[trigger] chip8.memory@[a] == if FONT_START <= a < FONT_START + i {
                        font_spec()[a - FONT_START]
                    } else {
                        0u8
                    },
            decreases FONT_SIZE - i,
        {
            chip8.memory[FONT_START + i] = font[i];
            i += 1;
        }
        assert(chip8.memory@ =~= initial_memory());
        chip8
    }

    /// Copies `rom_bytes` into memory from `PROGRAM_START` on. A ROM longer
    /// than `MAX_ROM_SIZE` is refused with `Rom Too Large!!!` and changes
    /// nothing; otherwise the result is `Loaded Rom Into memory`.
    pub fn load_rom(&mut self, rom_bytes: &[u8]) -> (res: Result<String, String>)
        requires
            rom_bytes@.len() <= MEMORY_SIZE - PROGRAM_START || rom_bytes@.len() > MAX_ROM_SIZE,
        ensures
            rom_bytes@.len() > MAX_ROM_SIZE ==> {
                &&& res matches Err(e) && e@ == "Rom Too Large!!!"@
                &&& final(self)@ == old(self)@
            },
            rom_bytes@.len() <= MAX_ROM_SIZE ==> {
                &&& res matches Ok(m) && m@ == "Loaded Rom Into memory"@
                &&& final(self)@ == (Chip8State { memory: with_rom(old(self)@.memory, rom_bytes@), ..old(self)@ })
            },
    {
        if rom_bytes.len() > (MEMORY_SIZE - FONT_START) {
            return Err(String::from_str("Rom Too Large!!!"));
        };

        let n = rom_bytes.len();
        let base = PROGRAM_START as usize;
        let mut i: usize = 0;
        while i < n
            invariant
                i <= n,
                n == rom_bytes@.len(),
                base + n <= MEMORY_SIZE,
                base == PROGRAM_START,
                self.cpu == old(self).cpu,
                self.display == old(self).display,
                self.keypad == old(self).keypad,
                self.memory@.len() == MEMORY_SIZE,
                forall|a: int|
                    0 <= a < MEMORY_SIZE ==> #[trigger] self.memory@[a] == if base <= a < base + i {
                        rom_bytes@[a - base]
                    } else {
                        old(self).memory@[a]
                    },
            decreases n - i,
        {
            self.memory[base + i] = rom_bytes[i];
            i += 1;
        }
        assert(self.memory@ =~= with_rom(old(self)@.memory, rom_bytes@));

        Ok(String::from_str("Loaded Rom Into memory"))
    }

    /// Fetches the opcode at the program counter and executes it; an opcode
    /// that the CPU does not execute is skipped.
    pub fn tick(&mut self)
        requires
            tick_safe(old(self)@),
        ensures
            exists|r: u8| final(self)@ == #[trigger] tick_spec(old(self)@, r),
    {
        let opcode = self.cpu.fetch(&self.memory);
        let _ = self.cpu.execute(opcode, &mut self.memory, &mut self.display, &self.keypad);
        proof {
            let r = choose|r: u8|
                (self.cpu@, self.memory@, self.display@, true) == step(
                    after_fetch(old(self)@.cpu),
                    old(self)@.memory,
                    old(self)@.display,
                    old(self)@.keys,
                    opcode,
                    r,
                ) || (self.cpu@, self.memory@, self.display@, false) == step(
                    after_fetch(old(self)@.cpu),
                    old(self)@.memory,
                    old(self)@.display,
                    old(self)@.keys,
                    opcode,
                    r,
                );
            assert(self@ == tick_spec(old(self)@, r));
        }
    }

    /// Whether `tick` may run now: fetching and executing the next opcode
    /// stays within the machine.
    pub fn can_tick(&self) -> (b: bool)
        ensures
            b == tick_safe(self@),
    {
        if self.cpu.PC > 0xFFFD {
            return false;
        }
        let mut probe = CPU {
            regs: self.cpu.regs,
            index: self.cpu.index,
            PC: self.cpu.PC,
            SP: self.cpu.SP,
            stack: self.cpu.stack,
            DT: self.cpu.DT,
            ST: self.cpu.ST,
            waiting: self.cpu.waiting,
        };
        let opcode = probe.fetch(&self.memory);
        probe.step_is_safe(opcode, &self.keypad)
    }

    /// Counts the delay and sound timers down by one, stopping at zero.
    pub fn tick_times(&mut self)
        ensures
            final(self)@ == (Chip8State { cpu: count_down_timers(old(self)@.cpu), ..old(self)@ }),
    {
        self.cpu.decrement_timers();
    }

    /// Whether the sound timer is running, that is, the tone should sound.
    pub fn sound_active(&self) -> (b: bool)
        ensures
            b == (self@.cpu.st > 0),
    {
        self.cpu.sound_timer() > 0
    }

    /// The whole of memory.
    pub fn memory(&self) -> (m: &[u8; MEMORY_SIZE])
        ensures
            m@ == self@.memory,
    {
        &self.memory
    }

    /// The registers `V0` to `VF`.
    pub fn registers(&self) -> (r: &[u8; 16])
        ensures
            r@ == self@.cpu.regs,
    {
        self.cpu.registers()
    }

    /// The index register `I`.
    pub fn index_register(&self) -> (i: u16)
        ensures
            i == self@.cpu.index,
    {
        self.cpu.index()
    }

    /// The program counter.
    pub fn program_counter(&self) -> (pc: u16)
        ensures
            pc == self@.cpu.pc,
    {
        self.cpu.program_counter()
    }

    /// The stack pointer.
    pub fn stack_pointer(&self) -> (sp: u8)
        ensures
            sp == self@.cpu.sp,
    {
        self.cpu.stack_pointer()
    }

    /// The call stack.
    pub fn stack(&self) -> (s: &[u16; 16])
        ensures
            s@ == self@.cpu.stack,
    {
        self.cpu.stack()
    }

    /// The delay timer.
    pub fn delay_timer(&self) -> (t: u8)
        ensures
            t == self@.cpu.dt,
    {
        self.cpu.delay_timer()
    }

    /// The sound timer.
    pub fn sound_timer(&self) -> (t: u8)
        ensures
            t == self@.cpu.st,
    {
        self.cpu.sound_timer()
    }

    /// Whether the CPU waits for a key press.
    pub fn waiting(&self) -> (w: bool)
        ensures
            w == self@.cpu.waiting is Some,
    {
        self.cpu.waiting()
    }
}

} // verus!
