[package]
name = "chip8"
version = "0.1.0"
edition = "2021"
publish = false

[dependencies]
rand = "=0.10.3"
rodio = "=0.20.1"
sdl2 = "=0.37.0"
glow = "=0.14.2"
imgui = "=0.12.0"
imgui-glow-renderer = "=0.13.0"
imgui-sdl2-support = "=0.13.0"
