use elf_insight::elf::reader::{parse_elf_bytes, ElfError};
use elf_insight::elf::names::{
    elf_type_to_str, machine_to_str, os_abi_to_str, section_flags_to_str, section_type_to_str,
    segment_flags_to_str, segment_type_to_str, sym_bind_to_str, sym_vis_to_str,
};

#[test]
fn test_elf_type_to_str() {
    assert_eq!(elf_type_to_str(goblin::elf::header::ET_NONE), "NONE");
    assert_eq!(elf_type_to_str(goblin::elf::header::ET_REL), "REL (Relocatable)");
    assert_eq!(elf_type_to_str(goblin::elf::header::ET_EXEC), "EXEC (Executable)");
    assert_eq!(elf_type_to_str(goblin::elf::header::ET_DYN), "DYN (Shared object)");
    assert_eq!(elf_type_to_str(goblin::elf::header::ET_CORE), "CORE");
    assert_eq!(elf_type_to_str(0xFFFF), "0xffff");
}

#[test]
fn test_machine_to_str() {
    assert_eq!(machine_to_str(goblin::elf::header::EM_X86_64), "AMD x86-64");
    assert_eq!(machine_to_str(goblin::elf::header::EM_386), "Intel 80386");
    assert_eq!(machine_to_str(goblin::elf::header::EM_ARM), "ARM");
    assert_eq!(machine_to_str(goblin::elf::header::EM_AARCH64), "AArch64");
    assert_eq!(machine_to_str(0xFFFF), "0xffff");
}

#[test]
fn test_os_abi_to_str() {
    assert_eq!(os_abi_to_str(goblin::elf::header::ELFOSABI_NONE), "UNIX - System V");
    assert_eq!(os_abi_to_str(goblin::elf::header::ELFOSABI_LINUX), "UNIX - Linux");
    assert_eq!(os_abi_to_str(0xFF), "0xff");
}

#[test]
fn test_section_type_to_str() {
    assert_eq!(section_type_to_str(goblin::elf::section_header::SHT_PROGBITS), "PROGBITS");
    assert_eq!(section_type_to_str(goblin::elf::section_header::SHT_NOBITS), "NOBITS");
    assert_eq!(section_type_to_str(0xDEAD), "0xdead");
}

#[test]
fn test_section_flags_to_str() {
    let w = goblin::elf::section_header::SHF_WRITE as u64;
    let a = goblin::elf::section_header::SHF_ALLOC as u64;
    let x = goblin::elf::section_header::SHF_EXECINSTR as u64;
    assert_eq!(section_flags_to_str(0), "-");
    assert_eq!(section_flags_to_str(w), "W");
    assert_eq!(section_flags_to_str(a), "A");
    assert_eq!(section_flags_to_str(x), "X");
    assert_eq!(section_flags_to_str(w | a), "WA");
    assert_eq!(section_flags_to_str(w | a | x), "WAX");
}

#[test]
fn test_segment_type_to_str() {
    assert_eq!(segment_type_to_str(goblin::elf::program_header::PT_LOAD), "LOAD");
    assert_eq!(segment_type_to_str(goblin::elf::program_header::PT_DYNAMIC), "DYNAMIC");
    assert_eq!(segment_type_to_str(goblin::elf::program_header::PT_NOTE), "NOTE");
    assert_eq!(segment_type_to_str(0xFFFF), "0xffff");
}

#[test]
fn test_segment_flags_to_str() {
    let r = goblin::elf::program_header::PF_R;
    let w = goblin::elf::program_header::PF_W;
    let x = goblin::elf::program_header::PF_X;
    assert_eq!(segment_flags_to_str(0), "");
    assert_eq!(segment_flags_to_str(r), "R");
    assert_eq!(segment_flags_to_str(w), "W");
    assert_eq!(segment_flags_to_str(x), "E");
    assert_eq!(segment_flags_to_str(r | w | x), "RWE");
}

#[test]
fn test_sym_bind_to_str() {
    assert_eq!(sym_bind_to_str(goblin::elf::sym::STB_LOCAL), "LOCAL");
    assert_eq!(sym_bind_to_str(goblin::elf::sym::STB_GLOBAL), "GLOBAL");
    assert_eq!(sym_bind_to_str(goblin::elf::sym::STB_WEAK), "WEAK");
    assert_eq!(sym_bind_to_str(0xFF), "0xff");
}

#[test]
fn test_sym_vis_to_str() {
    assert_eq!(sym_vis_to_str(goblin::elf::sym::STV_DEFAULT), "DEFAULT");
    assert_eq!(sym_vis_to_str(goblin::elf::sym::STV_HIDDEN), "HIDDEN");
    assert_eq!(sym_vis_to_str(0xFF), "0xff");
}

fn put(buf: &mut Vec<u8>, at: usize, bytes: &[u8]) {
    buf[at..at + bytes.len()].copy_from_slice(bytes);
}

/// A small x86-64 executable: a header, four bytes of code at 0x40, the
/// section-name table after them, and three section headers at 0x58.
fn tiny_elf() -> Vec<u8> {
    let mut b = vec![0u8; 0x118];
    put(&mut b, 0, &[0x7f, b'E', b'L', b'F', 2, 1, 1, 0]);
    put(&mut b, 16, &2u16.to_le_bytes());
    put(&mut b, 18, &0x3eu16.to_le_bytes());
    put(&mut b, 20, &1u32.to_le_bytes());
    put(&mut b, 24, &0x401000u64.to_le_bytes());
    put(&mut b, 40, &0x58u64.to_le_bytes());
    put(&mut b, 52, &64u16.to_le_bytes());
    put(&mut b, 54, &56u16.to_le_bytes());
    put(&mut b, 58, &64u16.to_le_bytes());
    put(&mut b, 60, &3u16.to_le_bytes());
    put(&mut b, 62, &2u16.to_le_bytes());
    put(&mut b, 0x40, &[0x55, 0xc3, 0x90, 0xc3]);
    put(&mut b, 0x44, b"\0.text\0.shstrtab\0");
    let text = 0x58 + 64;
    put(&mut b, text, &1u32.to_le_bytes());
    put(&mut b, text + 4, &1u32.to_le_bytes());
    put(&mut b, text + 8, &6u64.to_le_bytes());
    put(&mut b, text + 16, &0x401000u64.to_le_bytes());
    put(&mut b, text + 24, &0x40u64.to_le_bytes());
    put(&mut b, text + 32, &4u64.to_le_bytes());
    let names = 0x58 + 128;
    put(&mut b, names, &7u32.to_le_bytes());
    put(&mut b, names + 4, &3u32.to_le_bytes());
    put(&mut b, names + 24, &0x44u64.to_le_bytes());
    put(&mut b, names + 32, &17u64.to_le_bytes());
    b
}

#[test]
fn parse_reads_a_small_executable() {
    let bytes = tiny_elf();
    let d = parse_elf_bytes("tiny".to_string(), bytes.clone()).unwrap();
    assert_eq!(d.file_path, "tiny");
    assert_eq!(d.raw_bytes, bytes);
    assert_eq!(d.class, 2);
    assert_eq!(d.data, 1);
    assert_eq!(d.elf_type, "EXEC (Executable)");
    assert!(!d.is_pie);
    assert_eq!(d.machine, "AMD x86-64");
    assert_eq!(d.entry, 0x401000);
    assert_eq!(d.shoff, 0x58);
    assert_eq!(d.shnum, 3);
    assert_eq!(d.sections.len(), 3);
    assert_eq!(d.sections[1].name, ".text");
    assert_eq!(d.sections[1].ty, "PROGBITS");
    assert_eq!(d.sections[1].flags, "AX");
    assert_eq!(d.sections[1].data, vec![0x55, 0xc3, 0x90, 0xc3]);
    assert_eq!(d.sections[2].name, ".shstrtab");
    assert_eq!(d.sections[2].index, 2);
    assert!(d.segments.is_empty());
    assert!(d.symbols.is_empty());
}

#[test]
fn parse_refuses_bytes_that_are_not_elf() {
    let r = parse_elf_bytes("junk".to_string(), b"not an elf file at all".to_vec());
    assert!(matches!(r, Err(ElfError::Malformed(_))));
}

#[test]
fn parse_refuses_an_unknown_class() {
    let mut bytes = tiny_elf();
    bytes[4] = 7;
    let r = parse_elf_bytes("odd".to_string(), bytes);
    assert!(matches!(r, Err(ElfError::Malformed(_))));
}
