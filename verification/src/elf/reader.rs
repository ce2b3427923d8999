//! Reading an ELF file's tables through the goblin ELF reader, and the
//! viewer's model built from them.

use vstd::prelude::*;

use crate::elf::parser::{
    build_elf_data, elf_data_of, raw_sections_view, raw_symbols_view, sections_fit, ElfData,
    RawHeader, RawSection, RawSectionView, RawSegment, RawSymbol, RawSymbolView,
};

verus! {

#[verifier::external_type_specification]
#[verifier::external_body]
pub struct ExGoblinError(goblin::error::Error);

/// The tables that goblin's ELF reader decodes from a file's bytes.
pub struct ElfTables {
    /// The file header.
    pub header: RawHeader,
    /// The section headers, each with its name looked up in the
    /// section-name string table.
    pub sections: Seq<RawSectionView>,
    /// The program headers.
    pub segments: Seq<RawSegment>,
    /// The symbol-table entries, each with its name looked up in the symbol
    /// string table.
    pub symbols: Seq<RawSymbolView>,
}

/// What `goblin::elf::Elf::parse` gives for `bytes`: its tables, or `None`
/// where it refuses the bytes as an ELF file.
pub uninterp spec fn goblin_elf(bytes: Seq<u8>) -> Option<ElfTables>;

/// Calls `goblin::elf::Elf::parse` and copies the file header's fields.
/// Claimed: `Err` exactly where `goblin_elf(bytes)` is `None` (a function of
/// the bytes alone), else the header is that of `goblin_elf(bytes)`. What
/// goblin decodes is not stated.
#[verifier::external_body]
fn read_header(bytes: &[u8]) -> (r: Result<RawHeader, goblin::error::Error>)
    ensures
        r is Ok <==> goblin_elf(bytes@) is Some,
        r matches Ok(h) ==> goblin_elf(bytes@)->0.header == h,
{
    let e = goblin::elf::Elf::parse(bytes)?;
    let h = &e.header;
    let i = &h.e_ident;
    Ok(RawHeader {
        ident_class: i[4], ident_data: i[5], ident_osabi: i[7], ident_abiversion: i[8],
        e_type: h.e_type, e_machine: h.e_machine, e_version: h.e_version, e_entry: h.e_entry,
        e_phoff: h.e_phoff, e_shoff: h.e_shoff, e_flags: h.e_flags, e_ehsize: h.e_ehsize,
        e_phentsize: h.e_phentsize, e_phnum: h.e_phnum, e_shentsize: h.e_shentsize,
        e_shnum: h.e_shnum, e_shstrndx: h.e_shstrndx,
    })
}

/// Calls `goblin::elf::Elf::parse` and copies its section headers, each with
/// the name that `Strtab::get_at` finds for it in `shdr_strtab`. Claimed:
/// `Err` exactly where `goblin_elf(bytes)` is `None`, else the sections are
/// those of `goblin_elf(bytes)`.
#[verifier::external_body]
fn read_sections(bytes: &[u8]) -> (r: Result<Vec<RawSection>, goblin::error::Error>)
    ensures
        r is Ok <==> goblin_elf(bytes@) is Some,
        r matches Ok(v) ==> goblin_elf(bytes@)->0.sections == raw_sections_view(v@),
{
    let e = goblin::elf::Elf::parse(bytes)?;
    Ok(e.section_headers.iter().map(|sh| RawSection {
        name: e.shdr_strtab.get_at(sh.sh_name).map(|n| n.to_string()),
        sh_type: sh.sh_type, sh_flags: sh.sh_flags, sh_addr: sh.sh_addr,
        sh_offset: sh.sh_offset, sh_size: sh.sh_size,
    }).collect())
}

/// Calls `goblin::elf::Elf::parse` and copies its program headers. Claimed:
/// `Err` exactly where `goblin_elf(bytes)` is `None`, else the segments are
/// those of `goblin_elf(bytes)`.
#[verifier::external_body]
fn read_segments(bytes: &[u8]) -> (r: Result<Vec<RawSegment>, goblin::error::Error>)
    ensures
        r is Ok <==> goblin_elf(bytes@) is Some,
        r matches Ok(v) ==> goblin_elf(bytes@)->0.segments == v@,
{
    let e = goblin::elf::Elf::parse(bytes)?;
    Ok(e.program_headers.iter().map(|ph| RawSegment {
        p_type: ph.p_type, p_flags: ph.p_flags, p_offset: ph.p_offset, p_vaddr: ph.p_vaddr,
        p_paddr: ph.p_paddr, p_filesz: ph.p_filesz, p_memsz: ph.p_memsz, p_align: ph.p_align,
    }).collect())
}

/// Calls `goblin::elf::Elf::parse` and copies the entries of its symbol table
/// (`syms`), each with the name that `Strtab::get_at` finds for it in
/// `strtab`. Claimed: `Err` exactly where `goblin_elf(bytes)` is `None`,
/// else the symbols are those of `goblin_elf(bytes)`.
#[verifier::external_body]
fn read_symbols(bytes: &[u8]) -> (r: Result<Vec<RawSymbol>, goblin::error::Error>)
    ensures
        r is Ok <==> goblin_elf(bytes@) is Some,
        r matches Ok(v) ==> goblin_elf(bytes@)->0.symbols == raw_symbols_view(v@),
{
    let e = goblin::elf::Elf::parse(bytes)?;
    Ok(e.syms.iter().map(|s| RawSymbol {
        name: e.strtab.get_at(s.st_name).map(|n| n.to_string()),
        st_info: s.st_info, st_other: s.st_other, st_shndx: s.st_shndx,
        st_value: s.st_value, st_size: s.st_size,
    }).collect())
}

/// The text that goblin's `Display` gives for one of its errors. Nothing is
/// claimed of the text.
#[verifier::external_body]
fn goblin_error_text(e: &goblin::error::Error) -> String {
    e.to_string()
}

/// Why an ELF file could not be read.
#[derive(Debug, Clone)]
pub enum ElfError {
    /// goblin refused the bytes; its explanation.
    Malformed(String),
    /// A section's end offset does not fit in the address space.
    SectionOutOfRange,
}

/// Reads the ELF file whose bytes are `raw_bytes` (found at `file_path`) into
/// the viewer's model.
pub fn parse_elf_bytes(file_path: String, raw_bytes: Vec<u8>) -> (r: Result<ElfData, ElfError>)
    ensures
        r matches Err(ElfError::Malformed(_)) <==> goblin_elf(raw_bytes@) is None,
        r matches Err(ElfError::SectionOutOfRange) <==> (goblin_elf(raw_bytes@) matches Some(t) && !sections_fit(
            t.sections,
        )),
        r is Ok <==> (goblin_elf(raw_bytes@) matches Some(t) && sections_fit(t.sections)),
        r matches Ok(d) ==> ({
            let t = goblin_elf(raw_bytes@)->0;
            d@ == elf_data_of(file_path@, raw_bytes@, t.header, t.sections, t.segments, t.symbols)
        }),
{
    let h = match read_header(raw_bytes.as_slice()) {
        Ok(h) => h,
        Err(e) => return Err(ElfError::Malformed(goblin_error_text(&e))),
    };
    let shs = match read_sections(raw_bytes.as_slice()) {
        Ok(v) => v,
        Err(e) => return Err(ElfError::Malformed(goblin_error_text(&e))),
    };
    let phs = match read_segments(raw_bytes.as_slice()) {
        Ok(v) => v,
        Err(e) => return Err(ElfError::Malformed(goblin_error_text(&e))),
    };
    let syms = match read_symbols(raw_bytes.as_slice()) {
        Ok(v) => v,
        Err(e) => return Err(ElfError::Malformed(goblin_error_text(&e))),
    };
    if !all_sections_fit(&shs) {
        return Err(ElfError::SectionOutOfRange);
    }
    Ok(build_elf_data(file_path, raw_bytes, h, &shs, &phs, &syms))
}

/// Whether every section that occupies bytes has an end offset that fits in
/// a `usize`.
pub fn all_sections_fit(shs: &Vec<RawSection>) -> (r: bool)
    ensures
        r == sections_fit(raw_sections_view(shs@)),
{
    let mut i: usize = 0;
    while i < shs.len()
        invariant
            i <= shs.len(),
            forall|k: int| 0 <= k < i ==> crate::elf::parser::section_fits(
                #[trigger] raw_sections_view(shs@)[k],
            ),
        decreases shs.len() - i,
    {
        let sh = &shs[i];
        if sh.sh_type != crate::elf::consts::SHT_NOBITS {
            if sh.sh_size > usize::MAX as u64 || sh.sh_offset > usize::MAX as u64 - sh.sh_size {
                assert(!crate::elf::parser::section_fits(raw_sections_view(shs@)[i as int]));
                return false;
            }
        }
        i = i + 1;
    }
    true
}

} // verus!
