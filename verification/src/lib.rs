//! A CHIP-8 virtual machine: memory, CPU, display, keypad and timers, with a
//! disassembler and the state of an interactive debugger.
#![allow(non_snake_case)]

pub mod chip8;
pub mod cpu;
pub mod debugger;
pub mod disassembler;
pub mod display;
pub mod font;
pub mod keypad;
pub mod laws;
pub mod semantics;
pub mod sound;
pub mod text;
