[package]
name = "riscv_emu"
version = "0.1.0"
edition = "2021"
publish = false

[dependencies]
goblin = "*"
clap = "2"
gdbstub = "0.4"
sdl2 = "*"
