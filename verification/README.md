# chip8

A CHIP-8 virtual machine with a disassembler and debugger state, written in
Verus. Every function in `src/` carries a contract that Verus proves, except
two trusted wrappers whose contracts are assumed: `text::push_char`
(`String::push`) and `cpu::random_byte` (a byte from `rand`).

- `src/cpu.rs`: registers, the instruction decoder as a specification
  (`decode`), one function per instruction, `fetch` and `execute`, and the
  exact conditions under which an instruction stays within the machine.
- `src/display.rs`: the 64x32 screen, XOR sprite drawing with collision
  detection, and the RGBA texture of the screen.
- `src/chip8.rs`: the whole machine: memory with the built-in font, ROM
  loading, `tick` and the timers.
- `src/disassembler.rs`: assembly text of opcodes and listings of memory.
- `src/debugger.rs`: snapshots, pause/step/reset controls, breakpoints, the
  text of the register, timer, instruction, stack, memory and disassembly views, and
  the frame loop that stops at breakpoints.
- `src/sound.rs`: when the tone starts and stops.
- `src/laws.rs`: properties that span functions, proved once for all inputs.
- `app/`: the SDL2/OpenGL window, the ImGui panels and rodio audio around
  the library.

Run the tests with `cargo test`; run the emulator with a ROM path as its only
argument.
