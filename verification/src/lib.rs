//! Verified core of an ELF file viewer: ELF header decoding, disassembly
//! bookkeeping, file layout maps and the viewer's navigation state machine.

pub mod app;
pub mod elf;
pub mod sort;
pub mod text;
pub mod ui;
