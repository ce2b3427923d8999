[package]
name = "elf_insight"
version = "0.1.0"
edition = "2021"
publish = false

[dependencies]
goblin = "0.9"
iced-x86 = "1.21"
ratatui = "0.29"
crossterm = "0.28"
