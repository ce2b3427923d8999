//! The viewer's model of an ELF file, and its assembly from the raw tables
//! that the ELF reader extracts.

use vstd::prelude::*;
use vstd::slice::{slice_subrange, slice_to_vec};

use crate::elf::consts;
use crate::elf::names::{
    elf_type_name, elf_type_to_str, machine_name, machine_to_str, os_abi_name, os_abi_to_str,
    section_flags_text, section_flags_to_str, section_type_name, section_type_to_str,
    segment_flags_text, segment_flags_to_str, segment_type_name, segment_type_to_str, spec_st_bind,
    spec_st_type, spec_st_visibility, st_bind, st_type, st_visibility, sym_bind_name,
    sym_bind_to_str, sym_vis_name, sym_vis_to_str,
};

verus! {

/// One section of the file, with its bytes.
#[derive(Debug, Clone)]
pub struct SectionInfo {
    pub name: String,
    pub index: usize,
    pub addr: u64,
    pub offset: u64,
    pub size: u64,
    pub ty: String,
    pub flags: String,
    pub data: Vec<u8>,
}

/// One segment (program header) of the file.
#[derive(Debug, Clone)]
pub struct SegmentInfo {
    pub index: usize,
    pub ty: String,
    pub offset: u64,
    pub vaddr: u64,
    pub paddr: u64,
    pub filesz: u64,
    pub memsz: u64,
    pub flags: String,
    pub align: u64,
}

/// One named symbol of the symbol table.
#[derive(Debug, Clone)]
pub struct SymbolInfo {
    pub name: String,
    pub addr: u64,
    pub size: u64,
    pub ty: SymbolType,
    pub bind: String,
    pub vis: String,
    pub shndx: u16,
}

/// The kind of a symbol.
#[derive(Debug, Clone, Copy, PartialEq, Eq, Structural)]
pub enum SymbolType {
    Function,
    Object,
    Section,
    File,
    Other(u8),
}

/// Everything the viewer shows of one ELF file.
#[derive(Debug, Clone)]
pub struct ElfData {
    pub file_path: String,
    pub raw_bytes: Vec<u8>,
    /// 1 = 32-bit, 2 = 64-bit
    pub class: u8,
    /// 1 = little endian, 2 = big endian
    pub data: u8,
    pub os_abi: String,
    pub abi_version: u8,
    pub elf_type: String,
    pub is_pie: bool,
    pub machine: String,
    pub version: u32,
    pub entry: u64,
    pub phoff: u64,
    pub shoff: u64,
    pub flags: u32,
    pub ehsize: u16,
    pub phentsize: u16,
    pub phnum: u16,
    pub shentsize: u16,
    pub shnum: u16,
    pub shstrndx: u16,
    pub sections: Vec<SectionInfo>,
    pub segments: Vec<SegmentInfo>,
    pub symbols: Vec<SymbolInfo>,
}

/// The abstract value of a `SectionInfo`.
pub struct SectionView {
    pub name: Seq<char>,
    pub index: usize,
    pub addr: u64,
    pub offset: u64,
    pub size: u64,
    pub ty: Seq<char>,
    pub flags: Seq<char>,
    pub data: Seq<u8>,
}

/// The abstract value of a `SegmentInfo`.
pub struct SegmentView {
    pub index: usize,
    pub ty: Seq<char>,
    pub offset: u64,
    pub vaddr: u64,
    pub paddr: u64,
    pub filesz: u64,
    pub memsz: u64,
    pub flags: Seq<char>,
    pub align: u64,
}

/// The abstract value of a `SymbolInfo`.
pub struct SymbolView {
    pub name: Seq<char>,
    pub addr: u64,
    pub size: u64,
    pub ty: SymbolType,
    pub bind: Seq<char>,
    pub vis: Seq<char>,
    pub shndx: u16,
}

/// The abstract value of an `ElfData`.
pub struct ElfDataView {
    pub file_path: Seq<char>,
    pub raw_bytes: Seq<u8>,
    pub class: u8,
    pub data: u8,
    pub os_abi: Seq<char>,
    pub abi_version: u8,
    pub elf_type: Seq<char>,
    pub is_pie: bool,
    pub machine: Seq<char>,
    pub version: u32,
    pub entry: u64,
    pub phoff: u64,
    pub shoff: u64,
    pub flags: u32,
    pub ehsize: u16,
    pub phentsize: u16,
    pub phnum: u16,
    pub shentsize: u16,
    pub shnum: u16,
    pub shstrndx: u16,
    pub sections: Seq<SectionView>,
    pub segments: Seq<SegmentView>,
    pub symbols: Seq<SymbolView>,
}

impl View for SectionInfo {
    type V = SectionView;

    open spec fn view(&self) -> SectionView {
        SectionView {
            name: self.name@,
            index: self.index,
            addr: self.addr,
            offset: self.offset,
            size: self.size,
            ty: self.ty@,
            flags: self.flags@,
            data: self.data@,
        }
    }
}

impl View for SegmentInfo {
    type V = SegmentView;

    open spec fn view(&self) -> SegmentView {
        SegmentView {
            index: self.index,
            ty: self.ty@,
            offset: self.offset,
            vaddr: self.vaddr,
            paddr: self.paddr,
            filesz: self.filesz,
            memsz: self.memsz,
            flags: self.flags@,
            align: self.align,
        }
    }
}

impl View for SymbolInfo {
    type V = SymbolView;

    open spec fn view(&self) -> SymbolView {
        SymbolView {
            name: self.name@,
            addr: self.addr,
            size: self.size,
            ty: self.ty,
            bind: self.bind@,
            vis: self.vis@,
            shndx: self.shndx,
        }
    }
}

/// The abstract values of a list of sections.
pub open spec fn sections_view(v: Seq<SectionInfo>) -> Seq<SectionView> {
    v.map_values(|s: SectionInfo| s@)
}

/// The abstract values of a list of segments.
pub open spec fn segments_view(v: Seq<SegmentInfo>) -> Seq<SegmentView> {
    v.map_values(|s: SegmentInfo| s@)
}

/// The abstract values of a list of symbols.
pub open spec fn symbols_view(v: Seq<SymbolInfo>) -> Seq<SymbolView> {
    v.map_values(|s: SymbolInfo| s@)
}

impl View for ElfData {
    type V = ElfDataView;

    open spec fn view(&self) -> ElfDataView {
        ElfDataView {
            file_path: self.file_path@,
            raw_bytes: self.raw_bytes@,
            class: self.class,
            data: self.data,
            os_abi: self.os_abi@,
            abi_version: self.abi_version,
            elf_type: self.elf_type@,
            is_pie: self.is_pie,
            machine: self.machine@,
            version: self.version,
            entry: self.entry,
            phoff: self.phoff,
            shoff: self.shoff,
            flags: self.flags,
            ehsize: self.ehsize,
            phentsize: self.phentsize,
            phnum: self.phnum,
            shentsize: self.shentsize,
            shnum: self.shnum,
            shstrndx: self.shstrndx,
            sections: sections_view(self.sections@),
            segments: segments_view(self.segments@),
            symbols: symbols_view(self.symbols@),
        }
    }
}

/// The ELF file header as the ELF reader decodes it.
#[derive(Debug, Clone, Copy, PartialEq, Eq, Structural)]
pub struct RawHeader {
    pub ident_class: u8,
    pub ident_data: u8,
    pub ident_osabi: u8,
    pub ident_abiversion: u8,
    pub e_type: u16,
    pub e_machine: u16,
    pub e_version: u32,
    pub e_entry: u64,
    pub e_phoff: u64,
    pub e_shoff: u64,
    pub e_flags: u32,
    pub e_ehsize: u16,
    pub e_phentsize: u16,
    pub e_phnum: u16,
    pub e_shentsize: u16,
    pub e_shnum: u16,
    pub e_shstrndx: u16,
}

/// One section header as the ELF reader decodes it; `name` is the entry of
/// the section-name string table, when there is one.
#[derive(Debug, Clone)]
pub struct RawSection {
    pub name: Option<String>,
    pub sh_type: u32,
    pub sh_flags: u64,
    pub sh_addr: u64,
    pub sh_offset: u64,
    pub sh_size: u64,
}

/// One program header as the ELF reader decodes it.
#[derive(Debug, Clone, Copy, PartialEq, Eq, Structural)]
pub struct RawSegment {
    pub p_type: u32,
    pub p_flags: u32,
    pub p_offset: u64,
    pub p_vaddr: u64,
    pub p_paddr: u64,
    pub p_filesz: u64,
    pub p_memsz: u64,
    pub p_align: u64,
}

/// One symbol-table entry as the ELF reader decodes it; `name` is the entry
/// of the symbol string table, when there is one.
#[derive(Debug, Clone)]
pub struct RawSymbol {
    pub name: Option<String>,
    pub st_info: u8,
    pub st_other: u8,
    pub st_shndx: usize,
    pub st_value: u64,
    pub st_size: u64,
}

/// The abstract value of a `RawSection`.
pub struct RawSectionView {
    pub name: Option<Seq<char>>,
    pub sh_type: u32,
    pub sh_flags: u64,
    pub sh_addr: u64,
    pub sh_offset: u64,
    pub sh_size: u64,
}

/// The abstract value of a `RawSymbol`.
pub struct RawSymbolView {
    pub name: Option<Seq<char>>,
    pub st_info: u8,
    pub st_other: u8,
    pub st_shndx: usize,
    pub st_value: u64,
    pub st_size: u64,
}

/// The abstract value of an optional string.
pub open spec fn opt_str_view(o: Option<String>) -> Option<Seq<char>> {
    match o {
        Some(s) => Some(s@),
        None => None,
    }
}

impl View for RawSection {
    type V = RawSectionView;

    open spec fn view(&self) -> RawSectionView {
        RawSectionView {
            name: opt_str_view(self.name),
            sh_type: self.sh_type,
            sh_flags: self.sh_flags,
            sh_addr: self.sh_addr,
            sh_offset: self.sh_offset,
            sh_size: self.sh_size,
        }
    }
}

impl View for RawSymbol {
    type V = RawSymbolView;

    open spec fn view(&self) -> RawSymbolView {
        RawSymbolView {
            name: opt_str_view(self.name),
            st_info: self.st_info,
            st_other: self.st_other,
            st_shndx: self.st_shndx,
            st_value: self.st_value,
            st_size: self.st_size,
        }
    }
}

/// The abstract values of a list of raw section headers.
pub open spec fn raw_sections_view(v: Seq<RawSection>) -> Seq<RawSectionView> {
    v.map_values(|s: RawSection| s@)
}

/// The abstract values of a list of raw symbols.
pub open spec fn raw_symbols_view(v: Seq<RawSymbol>) -> Seq<RawSymbolView> {
    v.map_values(|s: RawSymbol| s@)
}

/// A missing string-table entry reads as the empty name.
pub open spec fn name_or_empty(name: Option<Seq<char>>) -> Seq<char> {
    match name {
        Some(n) => n,
        None => Seq::empty(),
    }
}

/// The file bytes that a section occupies: none for a `NOBITS` section or one
/// that reaches past the end of the file.
pub open spec fn section_bytes(raw: Seq<u8>, sh: RawSectionView) -> Seq<u8> {
    if sh.sh_type == consts::SHT_NOBITS {
        Seq::empty()
    } else if sh.sh_offset + sh.sh_size <= raw.len() {
        raw.subrange(sh.sh_offset as int, sh.sh_offset + sh.sh_size)
    } else {
        Seq::empty()
    }
}

/// The viewer's record of section number `index`.
pub open spec fn section_of(raw: Seq<u8>, sh: RawSectionView, index: usize) -> SectionView {
    SectionView {
        name: name_or_empty(sh.name),
        index,
        addr: sh.sh_addr,
        offset: sh.sh_offset,
        size: sh.sh_size,
        ty: section_type_name(sh.sh_type),
        flags: section_flags_text(sh.sh_flags),
        data: section_bytes(raw, sh),
    }
}

/// The viewer's record of segment number `index`.
pub open spec fn segment_of(ph: RawSegment, index: usize) -> SegmentView {
    SegmentView {
        index,
        ty: segment_type_name(ph.p_type),
        offset: ph.p_offset,
        vaddr: ph.p_vaddr,
        paddr: ph.p_paddr,
        filesz: ph.p_filesz,
        memsz: ph.p_memsz,
        flags: segment_flags_text(ph.p_flags),
        align: ph.p_align,
    }
}

/// The kind of symbol that the type field of `st_info` names.
pub open spec fn symbol_type_of(info: u8) -> SymbolType {
    let t = spec_st_type(info);
    if t == consts::STT_FUNC {
        SymbolType::Function
    } else if t == consts::STT_OBJECT {
        SymbolType::Object
    } else if t == consts::STT_SECTION {
        SymbolType::Section
    } else if t == consts::STT_FILE {
        SymbolType::File
    } else {
        SymbolType::Other(t)
    }
}

/// Law: a symbol's kind is read from the low four bits of `st_info` (its
/// type field): it is a function exactly when they hold 2 (`STT_FUNC`), a
/// data object exactly when they hold 1 (`STT_OBJECT`), a section exactly
/// when 3 (`STT_SECTION`), a source file exactly when 4 (`STT_FILE`), and
/// otherwise another kind that carries those bits.
pub proof fn lemma_symbol_kind(info: u8)
    ensures
        symbol_type_of(info) == SymbolType::Function <==> info % 16 == 2,
        symbol_type_of(info) == SymbolType::Object <==> info % 16 == 1,
        symbol_type_of(info) == SymbolType::Section <==> info % 16 == 3,
        symbol_type_of(info) == SymbolType::File <==> info % 16 == 4,
        info % 16 > 4 || info % 16 == 0 ==> symbol_type_of(info) == SymbolType::Other(info % 16),
{
    assert(info & 0xf == info % 16) by (bit_vector);
}

/// The viewer's record of a named symbol.
pub open spec fn symbol_of(sym: RawSymbolView) -> SymbolView {
    SymbolView {
        name: name_or_empty(sym.name),
        addr: sym.st_value,
        size: sym.st_size,
        ty: symbol_type_of(sym.st_info),
        bind: sym_bind_name(spec_st_bind(sym.st_info)),
        vis: sym_vis_name(spec_st_visibility(sym.st_other)),
        shndx: sym.st_shndx as u16,
    }
}

/// The viewer's records of the symbols with a non-empty name, in table order.
pub open spec fn named_symbols(syms: Seq<RawSymbolView>) -> Seq<SymbolView>
    decreases syms.len(),
{
    if syms.len() == 0 {
        Seq::empty()
    } else {
        let rest = named_symbols(syms.drop_last());
        if name_or_empty(syms.last().name).len() > 0 {
            rest.push(symbol_of(syms.last()))
        } else {
            rest
        }
    }
}

/// A position-independent executable: a shared-object file that names a
/// program interpreter.
pub open spec fn spec_is_pie(h: RawHeader, segs: Seq<RawSegment>) -> bool {
    h.e_type == consts::ET_DYN && exists|i: int|
        0 <= i < segs.len() && #[trigger] segs[i].p_type == consts::PT_INTERP
}

/// Reading a section's bytes cannot overflow the address space: its end
/// offset fits in a `usize` (only checked for sections that occupy bytes).
pub open spec fn section_fits(sh: RawSectionView) -> bool {
    sh.sh_type == consts::SHT_NOBITS || sh.sh_offset + sh.sh_size <= usize::MAX
}

/// Every section that occupies bytes has an end offset that fits in a
/// `usize`.
pub open spec fn sections_fit(shs: Seq<RawSectionView>) -> bool {
    forall|i: int| 0 <= i < shs.len() ==> section_fits(#[trigger] shs[i])
}

/// The viewer's model of an ELF file, from its path, its bytes and the
/// tables that the ELF reader decoded from them.
pub open spec fn elf_data_of(
    file_path: Seq<char>,
    raw: Seq<u8>,
    h: RawHeader,
    shs: Seq<RawSectionView>,
    phs: Seq<RawSegment>,
    syms: Seq<RawSymbolView>,
) -> ElfDataView {
    ElfDataView {
        file_path,
        raw_bytes: raw,
        class: h.ident_class,
        data: h.ident_data,
        os_abi: os_abi_name(h.ident_osabi),
        abi_version: h.ident_abiversion,
        elf_type: elf_type_name(h.e_type),
        is_pie: spec_is_pie(h, phs),
        machine: machine_name(h.e_machine),
        version: h.e_version,
        entry: h.e_entry,
        phoff: h.e_phoff,
        shoff: h.e_shoff,
        flags: h.e_flags,
        ehsize: h.e_ehsize,
        phentsize: h.e_phentsize,
        phnum: h.e_phnum,
        shentsize: h.e_shentsize,
        shnum: h.e_shnum,
        shstrndx: h.e_shstrndx,
        sections: Seq::new(shs.len(), |i: int| section_of(raw, shs[i], i as usize)),
        segments: Seq::new(phs.len(), |i: int| segment_of(phs[i], i as usize)),
        symbols: named_symbols(syms),
    }
}

fn string_or_empty(name: &Option<String>) -> (r: String)
    ensures
        r@ == name_or_empty(opt_str_view(*name)),
{
    match name {
        Some(n) => n.clone(),
        None => String::new(),
    }
}

/// Builds the record of section number `index` from its header.
pub fn section_info(raw: &Vec<u8>, sh: &RawSection, index: usize) -> (r: SectionInfo)
    requires
        section_fits(sh@),
    ensures
        r@ == section_of(raw@, sh@, index),
{
    let data = if sh.sh_type == consts::SHT_NOBITS {
        Vec::new()
    } else {
        let start = sh.sh_offset as usize;
        let end = start + sh.sh_size as usize;
        if end <= raw.len() {
            slice_to_vec(slice_subrange(raw.as_slice(), start, end))
        } else {
            Vec::new()
        }
    };
    let r = SectionInfo {
        name: string_or_empty(&sh.name),
        index,
        addr: sh.sh_addr,
        offset: sh.sh_offset,
        size: sh.sh_size,
        ty: section_type_to_str(sh.sh_type),
        flags: section_flags_to_str(sh.sh_flags),
        data,
    };
    assert(r@.data =~= section_bytes(raw@, sh@));
    r
}

/// Builds the record of segment number `index` from its program header.
pub fn segment_info(ph: &RawSegment, index: usize) -> (r: SegmentInfo)
    ensures
        r@ == segment_of(*ph, index),
{
    SegmentInfo {
        index,
        ty: segment_type_to_str(ph.p_type),
        offset: ph.p_offset,
        vaddr: ph.p_vaddr,
        paddr: ph.p_paddr,
        filesz: ph.p_filesz,
        memsz: ph.p_memsz,
        flags: segment_flags_to_str(ph.p_flags),
        align: ph.p_align,
    }
}

/// The kind of symbol that the type field of `st_info` names.
pub fn symbol_type(info: u8) -> (r: SymbolType)
    ensures
        r == symbol_type_of(info),
        r == SymbolType::Function <==> info % 16 == 2,
        r == SymbolType::Object <==> info % 16 == 1,
{
    proof {
        lemma_symbol_kind(info);
    }
    let t = st_type(info);
    if t == consts::STT_FUNC {
        SymbolType::Function
    } else if t == consts::STT_OBJECT {
        SymbolType::Object
    } else if t == consts::STT_SECTION {
        SymbolType::Section
    } else if t == consts::STT_FILE {
        SymbolType::File
    } else {
        SymbolType::Other(t)
    }
}

/// Builds the record of a symbol from its table entry.
pub fn symbol_info(sym: &RawSymbol) -> (r: SymbolInfo)
    ensures
        r@ == symbol_of(sym@),
{
    SymbolInfo {
        name: string_or_empty(&sym.name),
        addr: sym.st_value,
        size: sym.st_size,
        ty: symbol_type(sym.st_info),
        bind: sym_bind_to_str(st_bind(sym.st_info)),
        vis: sym_vis_to_str(st_visibility(sym.st_other)),
        shndx: sym.st_shndx as u16,
    }
}

/// Whether a shared-object file names a program interpreter.
pub fn is_pie(h: &RawHeader, segs: &Vec<RawSegment>) -> (r: bool)
    ensures
        r == spec_is_pie(*h, segs@),
{
    if h.e_type != consts::ET_DYN {
        return false;
    }
    let mut i: usize = 0;
    while i < segs.len()
        invariant
            i <= segs.len(),
            h.e_type == consts::ET_DYN,
            forall|k: int| 0 <= k < i ==> segs@[k].p_type != consts::PT_INTERP,
        decreases segs.len() - i,
    {
        if segs[i].p_type == consts::PT_INTERP {
            assert(segs@[i as int].p_type == consts::PT_INTERP);
            return true;
        }
        i = i + 1;
    }
    false
}

/// Builds the records of all sections, numbered in table order.
pub fn section_infos(raw: &Vec<u8>, shs: &Vec<RawSection>) -> (r: Vec<SectionInfo>)
    requires
        sections_fit(raw_sections_view(shs@)),
    ensures
        sections_view(r@) == Seq::new(shs@.len(), |i: int| section_of(raw@, shs@[i]@, i as usize)),
{
    let mut r: Vec<SectionInfo> = Vec::new();
    let mut i: usize = 0;
    while i < shs.len()
        invariant
            i <= shs.len(),
            sections_fit(raw_sections_view(shs@)),
            r@.len() == i,
            forall|k: int| 0 <= k < i ==> #[trigger] r@[k]@ == section_of(raw@, shs@[k]@, k as usize),
        decreases shs.len() - i,
    {
        assert(section_fits(raw_sections_view(shs@)[i as int]));
        r.push(section_info(raw, &shs[i], i));
        i = i + 1;
    }
    assert(sections_view(r@) =~= Seq::new(shs@.len(), |i: int| section_of(raw@, shs@[i]@, i as usize)));
    r
}

/// Builds the records of all segments, numbered in table order.
pub fn segment_infos(phs: &Vec<RawSegment>) -> (r: Vec<SegmentInfo>)
    ensures
        segments_view(r@) == Seq::new(phs@.len(), |i: int| segment_of(phs@[i], i as usize)),
{
    let mut r: Vec<SegmentInfo> = Vec::new();
    let mut i: usize = 0;
    while i < phs.len()
        invariant
            i <= phs.len(),
            r@.len() == i,
            forall|k: int| 0 <= k < i ==> #[trigger] r@[k]@ == segment_of(phs@[k], k as usize),
        decreases phs.len() - i,
    {
        r.push(segment_info(&phs[i], i));
        i = i + 1;
    }
    assert(segments_view(r@) =~= Seq::new(phs@.len(), |i: int| segment_of(phs@[i], i as usize)));
    r
}

/// Builds the records of the symbols with a non-empty name, in table order.
pub fn symbol_infos(syms: &Vec<RawSymbol>) -> (r: Vec<SymbolInfo>)
    ensures
        symbols_view(r@) == named_symbols(raw_symbols_view(syms@)),
{
    let mut r: Vec<SymbolInfo> = Vec::new();
    let mut i: usize = 0;
    while i < syms.len()
        invariant
            i <= syms.len(),
            symbols_view(r@) == named_symbols(raw_symbols_view(syms@.subrange(0, i as int))),
        decreases syms.len() - i,
    {
        let ghost prefix = raw_symbols_view(syms@.subrange(0, i as int));
        let ghost next = raw_symbols_view(syms@.subrange(0, i + 1));
        assert(next.drop_last() =~= prefix);
        assert(next.last() == syms@[i as int]@);
        let info = symbol_info(&syms[i]);
        if info.name.as_str().unicode_len() > 0 {
            r.push(info);
        }
        assert(symbols_view(r@) =~= named_symbols(next));
        i = i + 1;
    }
    assert(syms@.subrange(0, syms@.len() as int) =~= syms@);
    r
}

/// Assembles the viewer's model of an ELF file from its path, its bytes and
/// the tables that the ELF reader decoded from them.
pub fn build_elf_data(
    file_path: String,
    raw_bytes: Vec<u8>,
    h: RawHeader,
    shs: &Vec<RawSection>,
    phs: &Vec<RawSegment>,
    syms: &Vec<RawSymbol>,
) -> (r: ElfData)
    requires
        sections_fit(raw_sections_view(shs@)),
    ensures
        r@ == elf_data_of(
            file_path@,
            raw_bytes@,
            h,
            raw_sections_view(shs@),
            phs@,
            raw_symbols_view(syms@),
        ),
{
    let sections = section_infos(&raw_bytes, shs);
    let segments = segment_infos(phs);
    let symbols = symbol_infos(syms);
    let pie = is_pie(&h, phs);
    let r = ElfData {
        file_path,
        raw_bytes,
        class: h.ident_class,
        data: h.ident_data,
        os_abi: os_abi_to_str(h.ident_osabi),
        abi_version: h.ident_abiversion,
        elf_type: elf_type_to_str(h.e_type),
        is_pie: pie,
        machine: machine_to_str(h.e_machine),
        version: h.e_version,
        entry: h.e_entry,
        phoff: h.e_phoff,
        shoff: h.e_shoff,
        flags: h.e_flags,
        ehsize: h.e_ehsize,
        phentsize: h.e_phentsize,
        phnum: h.e_phnum,
        shentsize: h.e_shentsize,
        shnum: h.e_shnum,
        shstrndx: h.e_shstrndx,
        sections,
        segments,
        symbols,
    };
    assert(raw_symbols_view(syms@) =~= syms@.map_values(|s: RawSymbol| s@));
    assert(r@.sections =~= Seq::new(
        raw_sections_view(shs@).len(),
        |i: int| section_of(raw_bytes@, raw_sections_view(shs@)[i], i as usize),
    ));
    r
}

} // verus!
