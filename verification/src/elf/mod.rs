//! ELF decoding and x86-64 disassembly.

pub mod consts;
pub mod disasm;
pub mod names;
pub mod parser;
pub mod reader;
