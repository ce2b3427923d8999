//! Display names of ELF header fields, section and segment types, flags and
//! symbol attributes.

use vstd::prelude::*;

use crate::elf::consts;
use crate::text::{hex_prefixed, hex_prefixed_string};

verus! {
/// The display name of an ELF file type (`e_type`). Unknown values are written as `0x` and lowercase hex.
pub open spec fn elf_type_name(et: u16) -> Seq<char> {
    if et == consts::ET_NONE {
        "NONE"@
    } else if et == consts::ET_REL {
        "REL (Relocatable)"@
    } else if et == consts::ET_EXEC {
        "EXEC (Executable)"@
    } else if et == consts::ET_DYN {
        "DYN (Shared object)"@
    } else if et == consts::ET_CORE {
        "CORE"@
    } else {
        hex_prefixed(et as nat)
    }
}

/// The display name of an ELF file type (`e_type`).
pub fn elf_type_to_str(et: u16) -> (r: String)
    ensures
        r@ == elf_type_name(et),
{
    if et == consts::ET_NONE {
        String::from_str("NONE")
    } else if et == consts::ET_REL {
        String::from_str("REL (Relocatable)")
    } else if et == consts::ET_EXEC {
        String::from_str("EXEC (Executable)")
    } else if et == consts::ET_DYN {
        String::from_str("DYN (Shared object)")
    } else if et == consts::ET_CORE {
        String::from_str("CORE")
    } else {
        hex_prefixed_string(et as u64)
    }
}

/// The display name of a target machine (`e_machine`). Unknown values are written as `0x` and lowercase hex.
pub open spec fn machine_name(m: u16) -> Seq<char> {
    if m == consts::EM_386 {
        "Intel 80386"@
    } else if m == consts::EM_X86_64 {
        "AMD x86-64"@
    } else if m == consts::EM_ARM {
        "ARM"@
    } else if m == consts::EM_AARCH64 {
        "AArch64"@
    } else {
        hex_prefixed(m as nat)
    }
}

/// The display name of a target machine (`e_machine`).
pub fn machine_to_str(m: u16) -> (r: String)
    ensures
        r@ == machine_name(m),
{
    if m == consts::EM_386 {
        String::from_str("Intel 80386")
    } else if m == consts::EM_X86_64 {
        String::from_str("AMD x86-64")
    } else if m == consts::EM_ARM {
        String::from_str("ARM")
    } else if m == consts::EM_AARCH64 {
        String::from_str("AArch64")
    } else {
        hex_prefixed_string(m as u64)
    }
}

/// The display name of an OS/ABI identification byte. Unknown values are written as `0x` and lowercase hex.
pub open spec fn os_abi_name(abi: u8) -> Seq<char> {
    if abi == consts::ELFOSABI_NONE {
        "UNIX - System V"@
    } else if abi == consts::ELFOSABI_LINUX {
        "UNIX - Linux"@
    } else if abi == consts::ELFOSABI_SOLARIS {
        "UNIX - Solaris"@
    } else if abi == consts::ELFOSABI_FREEBSD {
        "UNIX - FreeBSD"@
    } else {
        hex_prefixed(abi as nat)
    }
}

/// The display name of an OS/ABI identification byte.
pub fn os_abi_to_str(abi: u8) -> (r: String)
    ensures
        r@ == os_abi_name(abi),
{
    if abi == consts::ELFOSABI_NONE {
        String::from_str("UNIX - System V")
    } else if abi == consts::ELFOSABI_LINUX {
        String::from_str("UNIX - Linux")
    } else if abi == consts::ELFOSABI_SOLARIS {
        String::from_str("UNIX - Solaris")
    } else if abi == consts::ELFOSABI_FREEBSD {
        String::from_str("UNIX - FreeBSD")
    } else {
        hex_prefixed_string(abi as u64)
    }
}

/// The display name of a section type (`sh_type`). Unknown values are written as `0x` and lowercase hex.
pub open spec fn section_type_name(t: u32) -> Seq<char> {
    if t == consts::SHT_NULL {
        "NULL"@
    } else if t == consts::SHT_PROGBITS {
        "PROGBITS"@
    } else if t == consts::SHT_SYMTAB {
        "SYMTAB"@
    } else if t == consts::SHT_STRTAB {
        "STRTAB"@
    } else if t == consts::SHT_RELA {
        "RELA"@
    } else if t == consts::SHT_HASH {
        "HASH"@
    } else if t == consts::SHT_DYNAMIC {
        "DYNAMIC"@
    } else if t == consts::SHT_NOTE {
        "NOTE"@
    } else if t == consts::SHT_NOBITS {
        "NOBITS"@
    } else if t == consts::SHT_REL {
        "REL"@
    } else if t == consts::SHT_DYNSYM {
        "DYNSYM"@
    } else if t == consts::SHT_GNU_HASH {
        "GNU_HASH"@
    } else if t == consts::SHT_GNU_VERSYM {
        "VERSYM"@
    } else if t == consts::SHT_GNU_VERNEED {
        "VERNEED"@
    } else if t == consts::SHT_GNU_VERDEF {
        "VERDEF"@
    } else if t == consts::SHT_INIT_ARRAY {
        "INIT_ARRAY"@
    } else if t == consts::SHT_FINI_ARRAY {
        "FINI_ARRAY"@
    } else {
        hex_prefixed(t as nat)
    }
}

/// The display name of a section type (`sh_type`).
pub fn section_type_to_str(t: u32) -> (r: String)
    ensures
        r@ == section_type_name(t),
{
    if t == consts::SHT_NULL {
        String::from_str("NULL")
    } else if t == consts::SHT_PROGBITS {
        String::from_str("PROGBITS")
    } else if t == consts::SHT_SYMTAB {
        String::from_str("SYMTAB")
    } else if t == consts::SHT_STRTAB {
        String::from_str("STRTAB")
    } else if t == consts::SHT_RELA {
        String::from_str("RELA")
    } else if t == consts::SHT_HASH {
        String::from_str("HASH")
    } else if t == consts::SHT_DYNAMIC {
        String::from_str("DYNAMIC")
    } else if t == consts::SHT_NOTE {
        String::from_str("NOTE")
    } else if t == consts::SHT_NOBITS {
        String::from_str("NOBITS")
    } else if t == consts::SHT_REL {
        String::from_str("REL")
    } else if t == consts::SHT_DYNSYM {
        String::from_str("DYNSYM")
    } else if t == consts::SHT_GNU_HASH {
        String::from_str("GNU_HASH")
    } else if t == consts::SHT_GNU_VERSYM {
        String::from_str("VERSYM")
    } else if t == consts::SHT_GNU_VERNEED {
        String::from_str("VERNEED")
    } else if t == consts::SHT_GNU_VERDEF {
        String::from_str("VERDEF")
    } else if t == consts::SHT_INIT_ARRAY {
        String::from_str("INIT_ARRAY")
    } else if t == consts::SHT_FINI_ARRAY {
        String::from_str("FINI_ARRAY")
    } else {
        hex_prefixed_string(t as u64)
    }
}

/// The display name of a segment type (`p_type`). Unknown values are written as `0x` and lowercase hex.
pub open spec fn segment_type_name(t: u32) -> Seq<char> {
    if t == consts::PT_NULL {
        "NULL"@
    } else if t == consts::PT_LOAD {
        "LOAD"@
    } else if t == consts::PT_DYNAMIC {
        "DYNAMIC"@
    } else if t == consts::PT_INTERP {
        "INTERP"@
    } else if t == consts::PT_NOTE {
        "NOTE"@
    } else if t == consts::PT_PHDR {
        "PHDR"@
    } else if t == consts::PT_TLS {
        "TLS"@
    } else if t == consts::PT_GNU_EH_FRAME {
        "GNU_EH_FRAME"@
    } else if t == consts::PT_GNU_STACK {
        "GNU_STACK"@
    } else if t == consts::PT_GNU_RELRO {
        "GNU_RELRO"@
    } else {
        hex_prefixed(t as nat)
    }
}

/// The display name of a segment type (`p_type`).
pub fn segment_type_to_str(t: u32) -> (r: String)
    ensures
        r@ == segment_type_name(t),
{
    if t == consts::PT_NULL {
        String::from_str("NULL")
    } else if t == consts::PT_LOAD {
        String::from_str("LOAD")
    } else if t == consts::PT_DYNAMIC {
        String::from_str("DYNAMIC")
    } else if t == consts::PT_INTERP {
        String::from_str("INTERP")
    } else if t == consts::PT_NOTE {
        String::from_str("NOTE")
    } else if t == consts::PT_PHDR {
        String::from_str("PHDR")
    } else if t == consts::PT_TLS {
        String::from_str("TLS")
    } else if t == consts::PT_GNU_EH_FRAME {
        String::from_str("GNU_EH_FRAME")
    } else if t == consts::PT_GNU_STACK {
        String::from_str("GNU_STACK")
    } else if t == consts::PT_GNU_RELRO {
        String::from_str("GNU_RELRO")
    } else {
        hex_prefixed_string(t as u64)
    }
}

/// The display name of a symbol binding. Unknown values are written as `0x` and lowercase hex.
pub open spec fn sym_bind_name(bind: u8) -> Seq<char> {
    if bind == consts::STB_LOCAL {
        "LOCAL"@
    } else if bind == consts::STB_GLOBAL {
        "GLOBAL"@
    } else if bind == consts::STB_WEAK {
        "WEAK"@
    } else if bind == consts::STB_GNU_UNIQUE {
        "GNU_UNIQUE"@
    } else {
        hex_prefixed(bind as nat)
    }
}

/// The display name of a symbol binding.
pub fn sym_bind_to_str(bind: u8) -> (r: String)
    ensures
        r@ == sym_bind_name(bind),
{
    if bind == consts::STB_LOCAL {
        String::from_str("LOCAL")
    } else if bind == consts::STB_GLOBAL {
        String::from_str("GLOBAL")
    } else if bind == consts::STB_WEAK {
        String::from_str("WEAK")
    } else if bind == consts::STB_GNU_UNIQUE {
        String::from_str("GNU_UNIQUE")
    } else {
        hex_prefixed_string(bind as u64)
    }
}

/// The display name of a symbol visibility. Unknown values are written as `0x` and lowercase hex.
pub open spec fn sym_vis_name(vis: u8) -> Seq<char> {
    if vis == consts::STV_DEFAULT {
        "DEFAULT"@
    } else if vis == consts::STV_INTERNAL {
        "INTERNAL"@
    } else if vis == consts::STV_HIDDEN {
        "HIDDEN"@
    } else if vis == consts::STV_PROTECTED {
        "PROTECTED"@
    } else {
        hex_prefixed(vis as nat)
    }
}

/// The display name of a symbol visibility.
pub fn sym_vis_to_str(vis: u8) -> (r: String)
    ensures
        r@ == sym_vis_name(vis),
{
    if vis == consts::STV_DEFAULT {
        String::from_str("DEFAULT")
    } else if vis == consts::STV_INTERNAL {
        String::from_str("INTERNAL")
    } else if vis == consts::STV_HIDDEN {
        String::from_str("HIDDEN")
    } else if vis == consts::STV_PROTECTED {
        String::from_str("PROTECTED")
    } else {
        hex_prefixed_string(vis as u64)
    }
}

/// The flag letters of a section: `W` (writable), `A` (allocated) and `X`
/// (executable), in that order, or `-` when none of the three is set.
pub open spec fn section_flags_text(flags: u64) -> Seq<char> {
    let letters = (if flags & consts::SHF_WRITE != 0 { seq!['W'] } else { Seq::empty() }) + (if flags
        & consts::SHF_ALLOC != 0 {
        seq!['A']
    } else {
        Seq::empty()
    }) + (if flags & consts::SHF_EXECINSTR != 0 { seq!['X'] } else { Seq::empty() });
    if letters.len() == 0 {
        seq!['-']
    } else {
        letters
    }
}

/// The flag letters of a section (see `section_flags_text`).
pub fn section_flags_to_str(flags: u64) -> (r: String)
    ensures
        r@ == section_flags_text(flags),
{
    proof {
        reveal_strlit("W");
        reveal_strlit("A");
        reveal_strlit("X");
        reveal_strlit("-");
    }
    let mut r = String::new();
    if flags & consts::SHF_WRITE != 0 {
        r.append("W");
    }
    if flags & consts::SHF_ALLOC != 0 {
        r.append("A");
    }
    if flags & consts::SHF_EXECINSTR != 0 {
        r.append("X");
    }
    if r.as_str().unicode_len() == 0 {
        r = String::from_str("-");
    }
    assert(r@ =~= section_flags_text(flags));
    r
}

/// The permission letters of a segment: `R`, `W` and `E` (executable), in
/// that order; empty when none is set.
pub open spec fn segment_flags_text(flags: u32) -> Seq<char> {
    (if flags & consts::PF_R != 0 { seq!['R'] } else { Seq::empty() }) + (if flags & consts::PF_W != 0 {
        seq!['W']
    } else {
        Seq::empty()
    }) + (if flags & consts::PF_X != 0 { seq!['E'] } else { Seq::empty() })
}

/// The permission letters of a segment (see `segment_flags_text`).
pub fn segment_flags_to_str(flags: u32) -> (r: String)
    ensures
        r@ == segment_flags_text(flags),
{
    proof {
        reveal_strlit("R");
        reveal_strlit("W");
        reveal_strlit("E");
    }
    let mut r = String::new();
    if flags & consts::PF_R != 0 {
        r.append("R");
    }
    if flags & consts::PF_W != 0 {
        r.append("W");
    }
    if flags & consts::PF_X != 0 {
        r.append("E");
    }
    assert(r@ =~= segment_flags_text(flags));
    r
}

/// The symbol type field of `st_info` (its low four bits).
pub open spec fn spec_st_type(info: u8) -> u8 {
    info & 0xf
}

/// The symbol binding field of `st_info` (its high four bits).
pub open spec fn spec_st_bind(info: u8) -> u8 {
    info >> 4
}

/// The symbol visibility field of `st_other` (its low three bits).
pub open spec fn spec_st_visibility(other: u8) -> u8 {
    other & 0x7
}

/// The symbol type field of `st_info`.
pub fn st_type(info: u8) -> (r: u8)
    ensures
        r == spec_st_type(info),
        r < 16,
{
    assert(info & 0xf < 16) by (bit_vector);
    info & 0xf
}

/// The symbol binding field of `st_info`.
pub fn st_bind(info: u8) -> (r: u8)
    ensures
        r == spec_st_bind(info),
        r < 16,
{
    assert(info >> 4 < 16) by (bit_vector);
    info >> 4
}

/// The symbol visibility field of `st_other`.
pub fn st_visibility(other: u8) -> (r: u8)
    ensures
        r == spec_st_visibility(other),
        r < 8,
{
    assert(other & 0x7 < 8) by (bit_vector);
    other & 0x7
}

} // verus!
