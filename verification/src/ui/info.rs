//! The structured information panel: its scroll state and the lines it
//! shows for the selected node.

use vstd::prelude::*;
use vstd::utf8::encode_utf8;

use crate::app::{app_ok, type_ok, App, AppView};
use crate::elf::parser::{ElfData, ElfDataView, SectionInfo, SectionView, SegmentInfo, SegmentView, SymbolInfo, SymbolType, SymbolView};
use crate::text::{
    dec_seq, hex_seq, pad_left, pad_right, push_dec, push_dec_padded, push_hex, push_padded_right,
    push_truncated, truncated,
};
use crate::ui::overview::{byte_list, hex_cell, lines_view, table_line};
use crate::ui::tree::TreeNodeType;

verus! {

/// Scroll position and highlighted line of the information panel.
#[derive(Debug, Clone, Copy, PartialEq, Eq, Structural)]
pub struct InfoState {
    pub scroll: usize,
    pub selected_line: usize,
}

impl InfoState {
    /// The initial state: top of the panel, first line.
    pub fn new() -> (r: Self)
        ensures
            r == (InfoState { scroll: 0, selected_line: 0 }),
    {
        InfoState { scroll: 0, selected_line: 0 }
    }
}

/// `label0xN (M bytes)`: a size in hexadecimal and in decimal.
pub open spec fn size_line(label: Seq<char>, n: u64) -> Seq<char> {
    label + "0x"@ + hex_seq(n as nat) + " ("@ + dec_seq(n as nat) + " bytes)"@
}

/// The lines for the file header.
pub open spec fn elf_header_lines(d: ElfDataView) -> Seq<Seq<char>> {
    seq![
        "Magic:         "@ + byte_list(d.raw_bytes.subrange(0, 16)),
        "Class:         "@ + if d.class == 2 { "ELF64"@ } else { "ELF32"@ },
        "Data:          "@ + if d.data == 1 { "2's complement, little endian"@ } else { "2's complement, big endian"@ },
        "Version:       "@ + dec_seq(d.version as nat) + " (current)"@,
        "OS/ABI:        "@ + d.os_abi,
        "ABI Version:   "@ + dec_seq(d.abi_version as nat),
        "Type:          "@ + d.elf_type,
        "Machine:       "@ + d.machine,
        "Version:       0x"@ + hex_seq(d.version as nat),
        "Entry point:   0x"@ + hex_seq(d.entry as nat),
        table_line("PH offset:     "@, d.phoff, d.phnum, d.phentsize),
        table_line("SH offset:     "@, d.shoff, d.shnum, d.shentsize),
        "Flags:         0x"@ + hex_seq(d.flags as nat),
        "EH size:       "@ + dec_seq(d.ehsize as nat) + " bytes"@,
        "SH strndx:     "@ + dec_seq(d.shstrndx as nat),
    ]
}

/// `label: N entries at offset 0xOFF`.
pub open spec fn table_head(label: Seq<char>, num: u16, off: u64) -> Seq<char> {
    label + dec_seq(num as nat) + " entries at offset 0x"@ + hex_seq(off as nat)
}

/// `Entry size: N bytes`.
pub open spec fn entry_size_line(n: u16) -> Seq<char> {
    "Entry size: "@ + dec_seq(n as nat) + " bytes"@
}

/// The column titles of the program header table.
pub open spec fn ph_title() -> Seq<char> {
    pad_right("Idx"@, 6) + " "@ + pad_right("Type"@, 14) + " "@ + pad_right("Offset"@, 10) + " "@ + pad_right(
        "VirtAddr"@,
        10,
    ) + " "@ + pad_right("PhysAddr"@, 10) + " "@ + pad_right("FileSiz"@, 10) + " "@ + pad_right("MemSiz"@, 10)
        + " "@ + pad_right("Flags"@, 6) + " "@ + pad_right("Align"@, 6)
}

/// The program header table's line for a segment.
pub open spec fn ph_row(g: SegmentView) -> Seq<char> {
    pad_right(dec_seq(g.index as nat), 6) + " "@ + pad_right(g.ty, 14) + " "@ + hex_cell(g.offset as nat, 8) + " "@
        + hex_cell(g.vaddr as nat, 8) + " "@ + hex_cell(g.paddr as nat, 8) + " "@ + hex_cell(g.filesz as nat, 8)
        + " "@ + hex_cell(g.memsz as nat, 8) + " "@ + pad_right(g.flags, 6) + " 0x"@ + hex_seq(g.align as nat)
}

/// The lines for the program header table.
pub open spec fn program_headers_lines(d: ElfDataView) -> Seq<Seq<char>> {
    seq![
        table_head("Program Headers: "@, d.phnum, d.phoff),
        entry_size_line(d.phentsize),
        Seq::empty(),
        ph_title(),
    ] + Seq::new(d.segments.len(), |i: int| ph_row(d.segments[i]))
}

/// The column titles of the section header table.
pub open spec fn sh_title() -> Seq<char> {
    pad_right("Idx"@, 4) + " "@ + pad_right("Name"@, 20) + " "@ + pad_right("Type"@, 12) + " "@ + pad_right(
        "Addr"@,
        12,
    ) + " "@ + pad_right("Offset"@, 10) + " "@ + pad_right("Size"@, 10) + " "@ + pad_right("Flags"@, 6)
}

/// A section name in the section table: cut to 17 characters and `...`
/// when it takes more than 20 bytes.
pub open spec fn short_name(name: Seq<char>) -> Seq<char> {
    if encode_utf8(name).len() > 20 {
        truncated(name, 17) + "..."@
    } else {
        name
    }
}

/// The section header table's line for a section.
pub open spec fn sh_row(s: SectionView) -> Seq<char> {
    pad_right(dec_seq(s.index as nat), 4) + " "@ + pad_right(short_name(s.name), 20) + " "@ + pad_right(s.ty, 12)
        + " "@ + hex_cell(s.addr as nat, 10) + " "@ + hex_cell(s.offset as nat, 8) + " "@ + hex_cell(
        s.size as nat,
        8,
    ) + " "@ + pad_right(s.flags, 6)
}

/// The lines for the section header table.
pub open spec fn section_headers_lines(d: ElfDataView) -> Seq<Seq<char>> {
    seq![
        table_head("Section Headers: "@, d.shnum, d.shoff),
        entry_size_line(d.shentsize),
        Seq::empty(),
        sh_title(),
    ] + Seq::new(d.sections.len(), |i: int| sh_row(d.sections[i]))
}

/// The lines for one section header (its number stands in for the fields
/// the viewer does not keep).
pub open spec fn section_header_lines(d: ElfDataView, index: usize) -> Seq<Seq<char>> {
    if index >= d.sections.len() {
        seq!["Section not found"@]
    } else {
        let s = d.sections[index as int];
        seq![
            "Name:      "@ + s.name,
            "Type:      "@ + s.ty,
            "Flags:     "@ + s.flags,
            "Address:   "@ + hex_cell(s.addr as nat, 16),
            "Offset:    0x"@ + hex_seq(s.offset as nat),
            size_line("Size:      "@, s.size),
            "Link:      "@ + dec_seq(s.index as nat),
            "Info:      0x"@ + hex_seq(s.index as nat),
            "Addr align: 0x"@ + hex_seq(s.index as nat),
            "Ent size:  0x"@ + hex_seq(s.index as nat),
        ]
    }
}

/// The lines for a section's body.
pub open spec fn section_body_lines(d: ElfDataView, index: usize) -> Seq<Seq<char>> {
    if index >= d.sections.len() {
        seq!["Section not found"@]
    } else {
        let s = d.sections[index as int];
        seq![
            "Name:      "@ + s.name,
            "Type:      "@ + s.ty,
            "Flags:     "@ + s.flags,
            "Address:   "@ + hex_cell(s.addr as nat, 16),
            "Offset:    0x"@ + hex_seq(s.offset as nat),
            size_line("Size:      "@, s.size),
            "Data size: "@ + dec_seq(s.data.len()) + " bytes"@,
        ]
    }
}

/// The name of a symbol kind.
pub open spec fn symbol_type_name(t: SymbolType) -> Seq<char> {
    match t {
        SymbolType::Function => "FUNC"@,
        SymbolType::Object => "OBJECT"@,
        SymbolType::Section => "SECTION"@,
        SymbolType::File => "FILE"@,
        SymbolType::Other(_) => "OTHER"@,
    }
}

/// The lines for a symbol.
pub open spec fn symbol_lines(d: ElfDataView, index: usize) -> Seq<Seq<char>> {
    if index >= d.symbols.len() {
        seq!["Symbol not found"@]
    } else {
        let sym = d.symbols[index as int];
        seq![
            "Name:      "@ + sym.name,
            "Type:      "@ + symbol_type_name(sym.ty),
            "Bind:      "@ + sym.bind,
            "Vis:       "@ + sym.vis,
            "Value:     "@ + hex_cell(sym.addr as nat, 16),
            "Size:      "@ + dec_seq(sym.size as nat) + " bytes"@,
            "Shndx:     "@ + dec_seq(sym.shndx as nat),
        ]
    }
}

/// A section lies within a segment's memory image: the segment takes
/// memory, and the section has an address and a size and starts inside the
/// segment (its end included).
pub open spec fn mapped_in(g: SegmentView, s: SectionView) -> bool {
    &&& g.memsz > 0
    &&& s.addr >= g.vaddr
    &&& s.addr <= g.vaddr + g.memsz
    &&& s.size > 0
    &&& s.addr > 0
}

/// Section `i` comes before section `j` in address order, ties broken by
/// table order.
pub open spec fn addr_before(secs: Seq<SectionView>, i: int, j: int) -> bool {
    secs[i].addr < secs[j].addr || (secs[i].addr == secs[j].addr && i < j)
}

/// `order` lists the sections mapped in segment `g`, each once, in address
/// order (ties in table order).
pub open spec fn mapped_order(secs: Seq<SectionView>, g: SegmentView, order: Seq<usize>) -> bool {
    &&& forall|k: int| 0 <= k < order.len() ==> #[trigger] order[k] < secs.len()
    &&& forall|k: int, m: int| 0 <= k < m < order.len() ==> addr_before(secs, #[trigger] order[k] as int, #[trigger] order[m] as int)
    &&& forall|i: int| 0 <= i < secs.len() ==> (mapped_in(g, #[trigger] secs[i]) <==> order.contains(i as usize))
}

/// The line for a section mapped in a segment.
pub open spec fn mapped_row(s: SectionView) -> Seq<char> {
    "  ["@ + pad_left(dec_seq(s.index as nat), 2, ' ') + "] "@ + pad_right(s.name, 20) + " "@ + hex_cell(s.addr as nat, 8)
        + "-"@ + hex_cell((s.addr + s.size) as nat, 8)
}

/// The first lines for a segment: its fields, then a blank line.
pub open spec fn segment_head_lines(g: SegmentView) -> Seq<Seq<char>> {
    seq![
        "Type:       "@ + g.ty,
        "Flags:      "@ + g.flags,
        "VirtAddr:   "@ + hex_cell(g.vaddr as nat, 16),
        size_line("VirtSize:   "@, g.memsz),
        "File offset: 0x"@ + hex_seq(g.offset as nat),
        size_line("File size:   "@, g.filesz),
        "Align:      0x"@ + hex_seq(g.align as nat),
        Seq::empty(),
    ]
}

/// The lines for a segment given the order of its mapped sections: its
/// fields, then the sections mapped into it.
pub open spec fn segment_lines_with(d: ElfDataView, index: usize, order: Seq<usize>) -> Seq<Seq<char>> {
    let g = d.segments[index as int];
    segment_head_lines(g) + if order.len() == 0 {
        seq!["No sections mapped to this segment"@]
    } else {
        seq!["Mapped sections:"@] + Seq::new(order.len(), |k: int| mapped_row(d.sections[order[k] as int]))
    }
}

/// `lines` are the lines for segment `index`.
pub open spec fn segment_lines(d: ElfDataView, index: usize, lines: Seq<Seq<char>>) -> bool {
    if index >= d.segments.len() {
        lines == seq!["Segment not found"@]
    } else {
        exists|order: Seq<usize>| #[trigger] mapped_order(d.sections, d.segments[index as int], order) && lines
            == segment_lines_with(d, index, order)
    }
}

/// Law: the information lines for a symbol name its kind (`FUNC` for a
/// function, `OBJECT` for a data object, `SECTION`, `FILE`, else `OTHER`)
/// and show its value as a 16-digit hexadecimal address and its size in
/// decimal bytes.
pub proof fn lemma_symbol_info(d: ElfDataView, index: usize)
    requires
        index < d.symbols.len(),
    ensures
        ({
            let sym = d.symbols[index as int];
            let lines = symbol_lines(d, index);
            &&& lines[1] == "Type:      "@ + match sym.ty {
                SymbolType::Function => "FUNC"@,
                SymbolType::Object => "OBJECT"@,
                SymbolType::Section => "SECTION"@,
                SymbolType::File => "FILE"@,
                SymbolType::Other(_) => "OTHER"@,
            }
            &&& lines[4] == "Value:     0x"@ + pad_left(hex_seq(sym.addr as nat), 16, '0')
            &&& lines[5] == "Size:      "@ + dec_seq(sym.size as nat) + " bytes"@
        }),
{
    let sym = d.symbols[index as int];
    assert(("Value:     "@ + "0x"@) =~= "Value:     0x"@) by {
        reveal_strlit("Value:     ");
        reveal_strlit("0x");
        reveal_strlit("Value:     0x");
    }
    assert(symbol_lines(d, index)[4] =~= "Value:     0x"@ + pad_left(hex_seq(sym.addr as nat), 16, '0'));
}

/// Law: the information lines for a section header show its address as a
/// 16-digit hexadecimal number, its file offset in hexadecimal, and its
/// size in hexadecimal and in decimal bytes.
pub proof fn lemma_section_header_info(d: ElfDataView, index: usize)
    requires
        index < d.sections.len(),
    ensures
        ({
            let s = d.sections[index as int];
            let lines = section_header_lines(d, index);
            &&& lines[0] == "Name:      "@ + s.name
            &&& lines[3] == "Address:   0x"@ + pad_left(hex_seq(s.addr as nat), 16, '0')
            &&& lines[4] == "Offset:    0x"@ + hex_seq(s.offset as nat)
            &&& lines[5] == "Size:      0x"@ + hex_seq(s.size as nat) + " ("@ + dec_seq(s.size as nat) + " bytes)"@
        }),
{
    let s = d.sections[index as int];
    assert(("Address:   "@ + "0x"@) =~= "Address:   0x"@) by {
        reveal_strlit("Address:   ");
        reveal_strlit("0x");
        reveal_strlit("Address:   0x");
    }
    assert(("Size:      "@ + "0x"@) =~= "Size:      0x"@) by {
        reveal_strlit("Size:      ");
        reveal_strlit("0x");
        reveal_strlit("Size:      0x");
    }
    let lines = section_header_lines(d, index);
    assert(lines[3] =~= "Address:   0x"@ + pad_left(hex_seq(s.addr as nat), 16, '0'));
    assert(lines[5] =~= "Size:      0x"@ + hex_seq(s.size as nat) + " ("@ + dec_seq(s.size as nat) + " bytes)"@);
}

/// Law: the information lines for the file header give the entry point and
/// where each header table lies: its offset in hexadecimal, its entry
/// count and entry size in decimal.
pub proof fn lemma_elf_header_info(d: ElfDataView)
    ensures
        ({
            let lines = elf_header_lines(d);
            &&& lines[9] == "Entry point:   0x"@ + hex_seq(d.entry as nat)
            &&& lines[10] == "PH offset:     0x"@ + hex_seq(d.phoff as nat) + " ("@ + dec_seq(d.phnum as nat)
                + " entries, "@ + dec_seq(d.phentsize as nat) + " bytes each)"@
            &&& lines[11] == "SH offset:     0x"@ + hex_seq(d.shoff as nat) + " ("@ + dec_seq(d.shnum as nat)
                + " entries, "@ + dec_seq(d.shentsize as nat) + " bytes each)"@
        }),
{
    assert(("PH offset:     "@ + "0x"@) =~= "PH offset:     0x"@) by {
        reveal_strlit("PH offset:     ");
        reveal_strlit("0x");
        reveal_strlit("PH offset:     0x");
    }
    assert(("SH offset:     "@ + "0x"@) =~= "SH offset:     0x"@) by {
        reveal_strlit("SH offset:     ");
        reveal_strlit("0x");
        reveal_strlit("SH offset:     0x");
    }
    let lines = elf_header_lines(d);
    assert(lines[10] =~= "PH offset:     0x"@ + hex_seq(d.phoff as nat) + " ("@ + dec_seq(d.phnum as nat)
        + " entries, "@ + dec_seq(d.phentsize as nat) + " bytes each)"@);
    assert(lines[11] =~= "SH offset:     0x"@ + hex_seq(d.shoff as nat) + " ("@ + dec_seq(d.shnum as nat)
        + " entries, "@ + dec_seq(d.shentsize as nat) + " bytes each)"@);
}

/// Law: the information lines for a segment show its sizes: line 3 its
/// size in memory and line 5 its size in the file, each in hexadecimal
/// after `0x` (read back as that size) and in decimal bytes; line 4 its file
/// offset.
pub proof fn lemma_segment_sizes(d: ElfDataView, index: usize, lines: Seq<Seq<char>>)
    requires
        index < d.segments.len(),
        segment_lines(d, index, lines),
    ensures
        ({
            let g = d.segments[index as int];
            &&& lines[3] == "VirtSize:   0x"@ + hex_seq(g.memsz as nat) + " ("@ + dec_seq(g.memsz as nat) + " bytes)"@
            &&& lines[4] == "File offset: 0x"@ + hex_seq(g.offset as nat)
            &&& lines[5] == "File size:   0x"@ + hex_seq(g.filesz as nat) + " ("@ + dec_seq(g.filesz as nat) + " bytes)"@
            &&& crate::ui::search::parse_hex_u64(hex_seq(g.filesz as nat)) == Some(g.filesz)
            &&& crate::ui::search::parse_hex_u64(hex_seq(g.memsz as nat)) == Some(g.memsz)
        }),
{
    let g = d.segments[index as int];
    let order = choose|order: Seq<usize>| #[trigger] mapped_order(d.sections, d.segments[index as int], order) && lines
        == segment_lines_with(d, index, order);
    crate::ui::search::lemma_parse_hex_round_trip(g.filesz);
    crate::ui::search::lemma_parse_hex_round_trip(g.memsz);
    assert(("VirtSize:   "@ + "0x"@) =~= "VirtSize:   0x"@) by {
        reveal_strlit("VirtSize:   ");
        reveal_strlit("0x");
        reveal_strlit("VirtSize:   0x");
    }
    assert(("File size:   "@ + "0x"@) =~= "File size:   0x"@) by {
        reveal_strlit("File size:   ");
        reveal_strlit("0x");
        reveal_strlit("File size:   0x");
    }
    let head = segment_head_lines(g);
    assert(lines[3] == head[3] && lines[4] == head[4] && lines[5] == head[5]);
    assert(head[3] =~= "VirtSize:   0x"@ + hex_seq(g.memsz as nat) + " ("@ + dec_seq(g.memsz as nat) + " bytes)"@);
    assert(head[5] =~= "File size:   0x"@ + hex_seq(g.filesz as nat) + " ("@ + dec_seq(g.filesz as nat) + " bytes)"@);
}

/// The address ranges of the sections that segment `index` maps end within
/// 64 bits.
pub open spec fn segment_fits(d: ElfDataView, index: usize) -> bool {
    index < d.segments.len() ==> forall|i: int|
        0 <= i < d.sections.len() && mapped_in(d.segments[index as int], #[trigger] d.sections[i])
            ==> d.sections[i].addr + d.sections[i].size <= u64::MAX
}

/// `lines` are what the information panel shows for the selected node.
pub open spec fn info_lines_of(a: AppView, lines: Seq<Seq<char>>) -> bool {
    let d = a.data;
    match a.tree.selected_node {
        Some(TreeNodeType::ElfHeader) => lines == elf_header_lines(d),
        Some(TreeNodeType::ProgramHeaders) => lines == program_headers_lines(d),
        Some(TreeNodeType::SectionHeaders) => lines == section_headers_lines(d),
        Some(TreeNodeType::SectionHeader { index }) => lines == section_header_lines(d, index),
        Some(TreeNodeType::SectionBody { index }) => lines == section_body_lines(d, index),
        Some(TreeNodeType::Segment { index }) => segment_lines(d, index, lines),
        Some(TreeNodeType::Symbol { index }) => lines == symbol_lines(d, index),
        _ => lines == seq!["Select a node to view details"@],
    }
}

/// The information panel's lines can be written: a selected segment's
/// mapped sections end within 64 bits, and the file header's lines find the
/// file's 16 identification bytes.
pub open spec fn info_fits(a: AppView) -> bool {
    match a.tree.selected_node {
        Some(TreeNodeType::Segment { index }) => segment_fits(a.data, index),
        Some(TreeNodeType::ElfHeader) => a.data.raw_bytes.len() >= 16,
        _ => true,
    }
}

fn cat(a: &str, b: &str) -> (r: String)
    ensures
        r@ == a@ + b@,
{
    let mut r = String::from_str(a);
    r.append(b);
    r
}

fn cat_hex(a: &str, n: u64) -> (r: String)
    ensures
        r@ == a@ + hex_seq(n as nat),
{
    let mut r = String::from_str(a);
    push_hex(&mut r, n);
    r
}

fn cat_dec(a: &str, n: u64) -> (r: String)
    ensures
        r@ == a@ + dec_seq(n as nat),
{
    let mut r = String::from_str(a);
    push_dec(&mut r, n);
    r
}

fn push_hex_cell(r: &mut String, n: u64, width: usize)
    ensures
        final(r)@ == old(r)@ + hex_cell(n as nat, width as nat),
{
    proof {
        reveal_strlit("0x");
    }
    r.append("0x");
    crate::text::push_hex_padded(r, n, width);
    assert(final(r)@ =~= old(r)@ + hex_cell(n as nat, width as nat));
}

fn size_line_string(label: &str, n: u64) -> (r: String)
    ensures
        r@ == size_line(label@, n),
{
    proof {
        reveal_strlit("0x");
        reveal_strlit(" (");
        reveal_strlit(" bytes)");
    }
    let mut r = String::from_str(label);
    r.append("0x");
    push_hex(&mut r, n);
    r.append(" (");
    push_dec(&mut r, n);
    r.append(" bytes)");
    assert(r@ =~= size_line(label@, n));
    r
}

fn table_head_string(label: &str, num: u16, off: u64) -> (r: String)
    ensures
        r@ == table_head(label@, num, off),
{
    proof {
        reveal_strlit(" entries at offset 0x");
    }
    let mut r = String::from_str(label);
    push_dec(&mut r, num as u64);
    r.append(" entries at offset 0x");
    push_hex(&mut r, off);
    assert(r@ =~= table_head(label@, num, off));
    r
}

fn entry_size_string(n: u16) -> (r: String)
    ensures
        r@ == entry_size_line(n),
{
    proof {
        reveal_strlit("Entry size: ");
        reveal_strlit(" bytes");
    }
    let mut r = String::from_str("Entry size: ");
    push_dec(&mut r, n as u64);
    r.append(" bytes");
    assert(r@ =~= entry_size_line(n));
    r
}

fn table_line_string(label: &str, off: u64, num: u16, entsize: u16) -> (r: String)
    ensures
        r@ == table_line(label@, off, num, entsize),
{
    proof {
        reveal_strlit("0x");
        reveal_strlit(" (");
        reveal_strlit(" entries, ");
        reveal_strlit(" bytes each)");
    }
    let mut r = String::from_str(label);
    r.append("0x");
    push_hex(&mut r, off);
    r.append(" (");
    push_dec(&mut r, num as u64);
    r.append(" entries, ");
    push_dec(&mut r, entsize as u64);
    r.append(" bytes each)");
    assert(r@ =~= table_line(label@, off, num, entsize));
    r
}

fn byte_list_string(bs: &[u8]) -> (r: String)
    ensures
        r@ == byte_list(bs@),
{
    crate::ui::overview::byte_list_text(bs)
}

/// The lines for the file header.
pub fn render_elf_header(app: &App) -> (r: Vec<String>)
    requires
        app_ok(app@),
        app@.data.raw_bytes.len() >= 16,
    ensures
        lines_view(r@) == elf_header_lines(app@.data),
{
    proof {
        reveal_strlit("Magic:         ");
        reveal_strlit("Class:         ");
        reveal_strlit("ELF64");
        reveal_strlit("ELF32");
        reveal_strlit("Data:          ");
        reveal_strlit("2's complement, little endian");
        reveal_strlit("2's complement, big endian");
        reveal_strlit("Version:       ");
        reveal_strlit(" (current)");
        reveal_strlit("OS/ABI:        ");
        reveal_strlit("ABI Version:   ");
        reveal_strlit("Type:          ");
        reveal_strlit("Machine:       ");
        reveal_strlit("Version:       0x");
        reveal_strlit("Entry point:   0x");
        reveal_strlit("PH offset:     ");
        reveal_strlit("SH offset:     ");
        reveal_strlit("Flags:         0x");
        reveal_strlit("EH size:       ");
        reveal_strlit(" bytes");
        reveal_strlit("SH strndx:     ");
    }
    let d = &app.data;
    let mut lines: Vec<String> = Vec::new();
    let magic = byte_list_string(vstd::slice::slice_subrange(d.raw_bytes.as_slice(), 0, 16));
    lines.push(cat("Magic:         ", magic.as_str()));
    lines.push(cat("Class:         ", if d.class == 2 { "ELF64" } else { "ELF32" }));
    lines.push(
        cat(
            "Data:          ",
            if d.data == 1 {
                "2's complement, little endian"
            } else {
                "2's complement, big endian"
            },
        ),
    );
    let mut version = cat_dec("Version:       ", d.version as u64);
    version.append(" (current)");
    lines.push(version);
    lines.push(cat("OS/ABI:        ", d.os_abi.as_str()));
    lines.push(cat_dec("ABI Version:   ", d.abi_version as u64));
    lines.push(cat("Type:          ", d.elf_type.as_str()));
    lines.push(cat("Machine:       ", d.machine.as_str()));
    lines.push(cat_hex("Version:       0x", d.version as u64));
    lines.push(cat_hex("Entry point:   0x", d.entry));
    lines.push(table_line_string("PH offset:     ", d.phoff, d.phnum, d.phentsize));
    lines.push(table_line_string("SH offset:     ", d.shoff, d.shnum, d.shentsize));
    lines.push(cat_hex("Flags:         0x", d.flags as u64));
    let mut eh = cat_dec("EH size:       ", d.ehsize as u64);
    eh.append(" bytes");
    lines.push(eh);
    lines.push(cat_dec("SH strndx:     ", d.shstrndx as u64));
    proof {
        assert(app@.data.raw_bytes.subrange(0, 16) =~= d.raw_bytes@.subrange(0, 16));
        assert(lines_view(lines@) =~~= elf_header_lines(app@.data));
    }
    lines
}

fn ph_title_string() -> (r: String)
    ensures
        r@ == ph_title(),
{
    proof {
        reveal_strlit("Idx");
        reveal_strlit("Type");
        reveal_strlit("Offset");
        reveal_strlit("VirtAddr");
        reveal_strlit("PhysAddr");
        reveal_strlit("FileSiz");
        reveal_strlit("MemSiz");
        reveal_strlit("Flags");
        reveal_strlit("Align");
        reveal_strlit(" ");
    }
    let mut r = String::new();
    push_padded_right(&mut r, "Idx", 6);
    r.append(" ");
    push_padded_right(&mut r, "Type", 14);
    r.append(" ");
    push_padded_right(&mut r, "Offset", 10);
    r.append(" ");
    push_padded_right(&mut r, "VirtAddr", 10);
    r.append(" ");
    push_padded_right(&mut r, "PhysAddr", 10);
    r.append(" ");
    push_padded_right(&mut r, "FileSiz", 10);
    r.append(" ");
    push_padded_right(&mut r, "MemSiz", 10);
    r.append(" ");
    push_padded_right(&mut r, "Flags", 6);
    r.append(" ");
    push_padded_right(&mut r, "Align", 6);
    assert(r@ =~= ph_title());
    r
}

fn ph_row_string(g: &SegmentInfo) -> (r: String)
    ensures
        r@ == ph_row(g@),
{
    proof {
        reveal_strlit(" ");
        reveal_strlit(" 0x");
    }
    let mut r = String::new();
    let idx = crate::text::dec_string(g.index as u64);
    push_padded_right(&mut r, idx.as_str(), 6);
    r.append(" ");
    push_padded_right(&mut r, g.ty.as_str(), 14);
    r.append(" ");
    push_hex_cell(&mut r, g.offset, 8);
    r.append(" ");
    push_hex_cell(&mut r, g.vaddr, 8);
    r.append(" ");
    push_hex_cell(&mut r, g.paddr, 8);
    r.append(" ");
    push_hex_cell(&mut r, g.filesz, 8);
    r.append(" ");
    push_hex_cell(&mut r, g.memsz, 8);
    r.append(" ");
    push_padded_right(&mut r, g.flags.as_str(), 6);
    r.append(" 0x");
    push_hex(&mut r, g.align);
    assert(r@ =~= ph_row(g@));
    r
}

/// The lines for the program header table.
pub fn render_program_headers(app: &App) -> (r: Vec<String>)
    ensures
        lines_view(r@) == program_headers_lines(app@.data),
{
    proof {
        reveal_strlit("Program Headers: ");
    }
    let d = &app.data;
    let mut lines: Vec<String> = Vec::new();
    lines.push(table_head_string("Program Headers: ", d.phnum, d.phoff));
    lines.push(entry_size_string(d.phentsize));
    lines.push(String::new());
    lines.push(ph_title_string());
    let ghost head = lines_view(lines@);
    assert(head =~= seq![
        table_head("Program Headers: "@, d.phnum, d.phoff),
        entry_size_line(d.phentsize),
        Seq::<char>::empty(),
        ph_title(),
    ]);
    let mut i: usize = 0;
    while i < d.segments.len()
        invariant
            i <= d.segments@.len(),
            lines_view(lines@) == head + Seq::new(i as nat, |k: int| ph_row(d@.segments[k])),
        decreases d.segments@.len() - i,
    {
        let row = ph_row_string(&d.segments[i]);
        assert(d@.segments[i as int] == d.segments@[i as int]@);
        let ghost before = lines@;
        lines.push(row);
        assert(lines_view(lines@) =~= lines_view(before).push(row@));
        i = i + 1;
        assert(lines_view(lines@) =~= head + Seq::new(i as nat, |k: int| ph_row(d@.segments[k])));
    }
    lines
}

fn sh_title_string() -> (r: String)
    ensures
        r@ == sh_title(),
{
    proof {
        reveal_strlit("Idx");
        reveal_strlit("Name");
        reveal_strlit("Type");
        reveal_strlit("Addr");
        reveal_strlit("Offset");
        reveal_strlit("Size");
        reveal_strlit("Flags");
        reveal_strlit(" ");
    }
    let mut r = String::new();
    push_padded_right(&mut r, "Idx", 4);
    r.append(" ");
    push_padded_right(&mut r, "Name", 20);
    r.append(" ");
    push_padded_right(&mut r, "Type", 12);
    r.append(" ");
    push_padded_right(&mut r, "Addr", 12);
    r.append(" ");
    push_padded_right(&mut r, "Offset", 10);
    r.append(" ");
    push_padded_right(&mut r, "Size", 10);
    r.append(" ");
    push_padded_right(&mut r, "Flags", 6);
    assert(r@ =~= sh_title());
    r
}

fn short_name_string(name: &str) -> (r: String)
    ensures
        r@ == short_name(name@),
{
    proof {
        reveal_strlit("...");
    }
    if name.as_bytes().len() > 20 {
        let mut r = String::new();
        push_truncated(&mut r, name, 17);
        r.append("...");
        assert(r@ =~= short_name(name@));
        r
    } else {
        String::from_str(name)
    }
}

fn sh_row_string(s: &SectionInfo) -> (r: String)
    ensures
        r@ == sh_row(s@),
{
    proof {
        reveal_strlit(" ");
    }
    let mut r = String::new();
    let idx = crate::text::dec_string(s.index as u64);
    push_padded_right(&mut r, idx.as_str(), 4);
    r.append(" ");
    let name = short_name_string(s.name.as_str());
    push_padded_right(&mut r, name.as_str(), 20);
    r.append(" ");
    push_padded_right(&mut r, s.ty.as_str(), 12);
    r.append(" ");
    push_hex_cell(&mut r, s.addr, 10);
    r.append(" ");
    push_hex_cell(&mut r, s.offset, 8);
    r.append(" ");
    push_hex_cell(&mut r, s.size, 8);
    r.append(" ");
    push_padded_right(&mut r, s.flags.as_str(), 6);
    assert(r@ =~= sh_row(s@));
    r
}

/// The lines for the section header table.
pub fn render_section_headers(app: &App) -> (r: Vec<String>)
    ensures
        lines_view(r@) == section_headers_lines(app@.data),
{
    proof {
        reveal_strlit("Section Headers: ");
    }
    let d = &app.data;
    let mut lines: Vec<String> = Vec::new();
    lines.push(table_head_string("Section Headers: ", d.shnum, d.shoff));
    lines.push(entry_size_string(d.shentsize));
    lines.push(String::new());
    lines.push(sh_title_string());
    let ghost head = lines_view(lines@);
    assert(head =~= seq![
        table_head("Section Headers: "@, d.shnum, d.shoff),
        entry_size_line(d.shentsize),
        Seq::<char>::empty(),
        sh_title(),
    ]);
    let mut i: usize = 0;
    while i < d.sections.len()
        invariant
            i <= d.sections@.len(),
            lines_view(lines@) == head + Seq::new(i as nat, |k: int| sh_row(d@.sections[k])),
        decreases d.sections@.len() - i,
    {
        let row = sh_row_string(&d.sections[i]);
        assert(d@.sections[i as int] == d.sections@[i as int]@);
        let ghost before = lines@;
        lines.push(row);
        assert(lines_view(lines@) =~= lines_view(before).push(row@));
        i = i + 1;
        assert(lines_view(lines@) =~= head + Seq::new(i as nat, |k: int| sh_row(d@.sections[k])));
    }
    lines
}

/// The lines for one section header.
pub fn render_section_header(app: &App, index: usize) -> (r: Vec<String>)
    ensures
        lines_view(r@) == section_header_lines(app@.data, index),
{
    proof {
        reveal_strlit("Section not found");
        reveal_strlit("Name:      ");
        reveal_strlit("Type:      ");
        reveal_strlit("Flags:     ");
        reveal_strlit("Address:   ");
        reveal_strlit("Offset:    0x");
        reveal_strlit("Size:      ");
        reveal_strlit("Link:      ");
        reveal_strlit("Info:      0x");
        reveal_strlit("Addr align: 0x");
        reveal_strlit("Ent size:  0x");
    }
    let mut lines: Vec<String> = Vec::new();
    if index >= app.data.sections.len() {
        lines.push(String::from_str("Section not found"));
        assert(lines_view(lines@) =~~= section_header_lines(app@.data, index));
        return lines;
    }
    let s = &app.data.sections[index];
    assert(app@.data.sections[index as int] == s@);
    lines.push(cat("Name:      ", s.name.as_str()));
    lines.push(cat("Type:      ", s.ty.as_str()));
    lines.push(cat("Flags:     ", s.flags.as_str()));
    let mut addr = String::from_str("Address:   ");
    push_hex_cell(&mut addr, s.addr, 16);
    lines.push(addr);
    lines.push(cat_hex("Offset:    0x", s.offset));
    lines.push(size_line_string("Size:      ", s.size));
    lines.push(cat_dec("Link:      ", s.index as u64));
    lines.push(cat_hex("Info:      0x", s.index as u64));
    lines.push(cat_hex("Addr align: 0x", s.index as u64));
    lines.push(cat_hex("Ent size:  0x", s.index as u64));
    assert(lines_view(lines@) =~~= section_header_lines(app@.data, index));
    lines
}

/// The lines for a section's body.
pub fn render_section_body_info(app: &App, index: usize) -> (r: Vec<String>)
    ensures
        lines_view(r@) == section_body_lines(app@.data, index),
{
    proof {
        reveal_strlit("Section not found");
        reveal_strlit("Name:      ");
        reveal_strlit("Type:      ");
        reveal_strlit("Flags:     ");
        reveal_strlit("Address:   ");
        reveal_strlit("Offset:    0x");
        reveal_strlit("Size:      ");
        reveal_strlit("Data size: ");
        reveal_strlit(" bytes");
    }
    let mut lines: Vec<String> = Vec::new();
    if index >= app.data.sections.len() {
        lines.push(String::from_str("Section not found"));
        assert(lines_view(lines@) =~~= section_body_lines(app@.data, index));
        return lines;
    }
    let s = &app.data.sections[index];
    assert(app@.data.sections[index as int] == s@);
    lines.push(cat("Name:      ", s.name.as_str()));
    lines.push(cat("Type:      ", s.ty.as_str()));
    lines.push(cat("Flags:     ", s.flags.as_str()));
    let mut addr = String::from_str("Address:   ");
    push_hex_cell(&mut addr, s.addr, 16);
    lines.push(addr);
    lines.push(cat_hex("Offset:    0x", s.offset));
    lines.push(size_line_string("Size:      ", s.size));
    let mut size = cat_dec("Data size: ", s.data.len() as u64);
    size.append(" bytes");
    lines.push(size);
    assert(lines_view(lines@) =~~= section_body_lines(app@.data, index));
    lines
}

/// The lines for a symbol.
pub fn render_symbol(app: &App, index: usize) -> (r: Vec<String>)
    ensures
        lines_view(r@) == symbol_lines(app@.data, index),
{
    proof {
        reveal_strlit("Symbol not found");
        reveal_strlit("Name:      ");
        reveal_strlit("Type:      ");
        reveal_strlit("FUNC");
        reveal_strlit("OBJECT");
        reveal_strlit("SECTION");
        reveal_strlit("FILE");
        reveal_strlit("OTHER");
        reveal_strlit("Bind:      ");
        reveal_strlit("Vis:       ");
        reveal_strlit("Value:     ");
        reveal_strlit("Size:      ");
        reveal_strlit(" bytes");
        reveal_strlit("Shndx:     ");
    }
    let mut lines: Vec<String> = Vec::new();
    if index >= app.data.symbols.len() {
        lines.push(String::from_str("Symbol not found"));
        assert(lines_view(lines@) =~~= symbol_lines(app@.data, index));
        return lines;
    }
    let sym = &app.data.symbols[index];
    assert(app@.data.symbols[index as int] == sym@);
    let type_str = match sym.ty {
        SymbolType::Function => "FUNC",
        SymbolType::Object => "OBJECT",
        SymbolType::Section => "SECTION",
        SymbolType::File => "FILE",
        SymbolType::Other(_) => "OTHER",
    };
    lines.push(cat("Name:      ", sym.name.as_str()));
    lines.push(cat("Type:      ", type_str));
    lines.push(cat("Bind:      ", sym.bind.as_str()));
    lines.push(cat("Vis:       ", sym.vis.as_str()));
    let mut value = String::from_str("Value:     ");
    push_hex_cell(&mut value, sym.addr, 16);
    lines.push(value);
    let mut size = cat_dec("Size:      ", sym.size);
    size.append(" bytes");
    lines.push(size);
    lines.push(cat_dec("Shndx:     ", sym.shndx as u64));
    assert(lines_view(lines@) =~~= symbol_lines(app@.data, index));
    lines
}


fn mapped_exec(g: &SegmentInfo, s: &SectionInfo) -> (r: bool)
    requires
        g@.vaddr + g@.memsz <= u64::MAX,
    ensures
        r == mapped_in(g@, s@),
{
    g.memsz > 0 && s.addr >= g.vaddr && s.addr <= g.vaddr + g.memsz && s.size > 0 && s.addr > 0
}

fn insert_by_addr(order: &mut Vec<usize>, i: usize, secs: &Vec<SectionInfo>)
    requires
        i < secs@.len(),
        forall|k: int| 0 <= k < old(order)@.len() ==> #[trigger] old(order)@[k] < i,
        forall|k: int, m: int|
            0 <= k < m < old(order)@.len() ==> addr_before(
                crate::elf::parser::sections_view(secs@),
                #[trigger] old(order)@[k] as int,
                #[trigger] old(order)@[m] as int,
            ),
    ensures
        forall|k: int| 0 <= k < final(order)@.len() ==> #[trigger] final(order)@[k] <= i,
        forall|k: int, m: int|
            0 <= k < m < final(order)@.len() ==> addr_before(
                crate::elf::parser::sections_view(secs@),
                #[trigger] final(order)@[k] as int,
                #[trigger] final(order)@[m] as int,
            ),
        forall|y: usize| #[trigger] final(order)@.contains(y) <==> old(order)@.contains(y) || y == i,
{
    let ghost sv = crate::elf::parser::sections_view(secs@);
    let a = secs[i].addr;
    assert(sv[i as int].addr == a);
    let mut k: usize = 0;
    while k < order.len() && secs[order[k]].addr <= a
        invariant
            k <= order@.len(),
            sv == crate::elf::parser::sections_view(secs@),
            forall|q: int| 0 <= q < order@.len() ==> #[trigger] order@[q] < i,
            i < secs@.len(),
            forall|q: int| 0 <= q < k ==> sv[#[trigger] order@[q] as int].addr <= a,
        decreases order@.len() - k,
    {
        assert(sv[order@[k as int] as int] == secs@[order@[k as int] as int]@);
        k = k + 1;
    }
    if k < order.len() {
        assert(sv[order@[k as int] as int] == secs@[order@[k as int] as int]@);
    }
    let ghost before = order@;
    order.insert(k, i);
    assert forall|q: int, m: int| 0 <= q < m < order@.len() implies addr_before(
        sv,
        #[trigger] order@[q] as int,
        #[trigger] order@[m] as int,
    ) by {
        if m < k {
            assert(order@[q] == before[q] && order@[m] == before[m]);
        } else if m == k {
            assert(order@[q] == before[q]);
            assert(sv[before[q] as int].addr <= a);
        } else if q < k {
            assert(order@[q] == before[q] && order@[m] == before[m - 1]);
        } else if q == k {
            assert(order@[m] == before[m - 1]);
            if k + 1 <= m - 1 {
                assert(addr_before(sv, before[k as int] as int, before[m - 1] as int));
            }
            assert(sv[before[k as int] as int].addr > a);
        } else {
            assert(order@[q] == before[q - 1] && order@[m] == before[m - 1]);
        }
    }
    assert forall|y: usize| #[trigger] order@.contains(y) <==> before.contains(y) || y == i by {
        if order@.contains(y) {
            let q = choose|q: int| 0 <= q < order@.len() && order@[q] == y;
            if q < k {
                assert(before[q] == y);
            } else if q > k {
                assert(before[q - 1] == y);
            }
        }
        if before.contains(y) {
            let q = choose|q: int| 0 <= q < before.len() && before[q] == y;
            if q < k {
                assert(order@[q] == y);
            } else {
                assert(order@[q + 1] == y);
            }
        }
        if y == i {
            assert(order@[k as int] == i);
        }
    }
    assert forall|q: int| 0 <= q < order@.len() implies #[trigger] order@[q] <= i by {
        if q < k {
            assert(order@[q] == before[q]);
        } else if q > k {
            assert(order@[q] == before[q - 1]);
        }
    }
}

fn mapped_order_exec(data: &ElfData, index: usize) -> (r: Vec<usize>)
    requires
        index < data@.segments.len(),
        data@.segments[index as int].vaddr + data@.segments[index as int].memsz <= u64::MAX,
    ensures
        mapped_order(data@.sections, data@.segments[index as int], r@),
{
    let g = &data.segments[index];
    assert(data@.segments[index as int] == g@);
    let ghost sv = data@.sections;
    let mut order: Vec<usize> = Vec::new();
    let mut i: usize = 0;
    while i < data.sections.len()
        invariant
            i <= data.sections@.len(),
            sv == data@.sections,
            sv == crate::elf::parser::sections_view(data.sections@),
            g@.vaddr + g@.memsz <= u64::MAX,
            forall|k: int| 0 <= k < order@.len() ==> #[trigger] order@[k] < i,
            forall|k: int, m: int|
                0 <= k < m < order@.len() ==> addr_before(sv, #[trigger] order@[k] as int, #[trigger] order@[m] as int),
            forall|q: int| 0 <= q < i ==> (mapped_in(g@, #[trigger] sv[q]) <==> order@.contains(q as usize)),
            forall|y: usize| #[trigger] order@.contains(y) ==> y < i,
        decreases data.sections@.len() - i,
    {
        assert(sv[i as int] == data.sections@[i as int]@);
        let ghost before = order@;
        if mapped_exec(g, &data.sections[i]) {
            insert_by_addr(&mut order, i, &data.sections);
        }
        assert forall|q: int| 0 <= q < i + 1 implies (mapped_in(g@, #[trigger] sv[q]) <==> order@.contains(q as usize)) by {
            if q < i {
                if before.contains(q as usize) {
                    assert(order@.contains(q as usize));
                }
            } else {
                if before.contains(q as usize) {
                    let p = choose|p: int| 0 <= p < before.len() && before[p] == q as usize;
                    assert(before[p] < i);
                }
            }
        }
        assert forall|y: usize| #[trigger] order@.contains(y) implies y < i + 1 by {
            if before.contains(y) {
            }
        }
        assert forall|k: int| 0 <= k < order@.len() implies #[trigger] order@[k] < i + 1 by {
        }
        i = i + 1;
    }
    assert forall|k: int| 0 <= k < order@.len() implies #[trigger] order@[k] < sv.len() by {
    }
    order
}

fn mapped_row_string(s: &SectionInfo) -> (r: String)
    requires
        s@.addr + s@.size <= u64::MAX,
    ensures
        r@ == mapped_row(s@),
{
    proof {
        reveal_strlit("  [");
        reveal_strlit("] ");
        reveal_strlit(" ");
        reveal_strlit("-");
    }
    let mut r = String::from_str("  [");
    push_dec_padded(&mut r, s.index as u64, 2);
    r.append("] ");
    push_padded_right(&mut r, s.name.as_str(), 20);
    r.append(" ");
    push_hex_cell(&mut r, s.addr, 8);
    r.append("-");
    push_hex_cell(&mut r, s.addr + s.size, 8);
    assert(r@ =~= mapped_row(s@));
    r
}

fn segment_head_strings(g: &SegmentInfo) -> (r: Vec<String>)
    ensures
        lines_view(r@) == segment_head_lines(g@),
{
    proof {
        reveal_strlit("Type:       ");
        reveal_strlit("Flags:      ");
        reveal_strlit("VirtAddr:   ");
        reveal_strlit("VirtSize:   ");
        reveal_strlit("File offset: 0x");
        reveal_strlit("File size:   ");
        reveal_strlit("Align:      0x");
    }
    let mut lines: Vec<String> = Vec::new();
    lines.push(cat("Type:       ", g.ty.as_str()));
    lines.push(cat("Flags:      ", g.flags.as_str()));
    let mut vaddr = String::from_str("VirtAddr:   ");
    push_hex_cell(&mut vaddr, g.vaddr, 16);
    lines.push(vaddr);
    lines.push(size_line_string("VirtSize:   ", g.memsz));
    lines.push(cat_hex("File offset: 0x", g.offset));
    lines.push(size_line_string("File size:   ", g.filesz));
    lines.push(cat_hex("Align:      0x", g.align));
    lines.push(String::new());
    assert(lines_view(lines@) =~~= segment_head_lines(g@));
    lines
}

/// The lines for a segment: its fields, then the sections mapped into it
/// in address order.
pub fn render_segment(app: &App, index: usize) -> (r: Vec<String>)
    requires
        app_ok(app@),
        segment_fits(app@.data, index),
    ensures
        segment_lines(app@.data, index, lines_view(r@)),
{
    proof {
        reveal_strlit("Segment not found");
        reveal_strlit("No sections mapped to this segment");
        reveal_strlit("Mapped sections:");
    }
    if index >= app.data.segments.len() {
        let mut lines: Vec<String> = Vec::new();
        lines.push(String::from_str("Segment not found"));
        assert(lines_view(lines@) =~~= seq!["Segment not found"@]);
        return lines;
    }
    let d = &app.data;
    let g = &d.segments[index];
    assert(d@.segments[index as int] == g@);
    assert(g@.vaddr + g@.memsz <= u64::MAX);
    let mut lines = segment_head_strings(g);
    let order = mapped_order_exec(d, index);
    let ghost head = lines_view(lines@);
    if order.len() == 0 {
        lines.push(String::from_str("No sections mapped to this segment"));
        assert(lines_view(lines@) =~~= segment_lines_with(d@, index, order@));
    } else {
        lines.push(String::from_str("Mapped sections:"));
        let ghost mid = lines_view(lines@);
        let mut k: usize = 0;
        while k < order.len()
            invariant
                k <= order@.len(),
                mapped_order(d@.sections, d@.segments[index as int], order@),
                segment_fits(d@, index),
                index < d@.segments.len(),
                lines_view(lines@) == mid + Seq::new(k as nat, |q: int| mapped_row(d@.sections[order@[q] as int])),
            decreases order@.len() - k,
        {
            let p = order[k];
            assert(p < d@.sections.len());
            assert(d@.sections[p as int] == d.sections@[p as int]@);
            assert(order@.contains(p));
            assert(mapped_in(d@.segments[index as int], d@.sections[p as int]));
            let row = mapped_row_string(&d.sections[p]);
            let ghost before = lines@;
            lines.push(row);
            assert(lines_view(lines@) =~= lines_view(before).push(row@));
            k = k + 1;
            assert(lines_view(lines@) =~= mid + Seq::new(k as nat, |q: int| mapped_row(d@.sections[order@[q] as int])));
        }
        assert(lines_view(lines@) =~= segment_lines_with(d@, index, order@));
    }
    assert(mapped_order(d@.sections, d@.segments[index as int], order@));
    lines
}

/// What the information panel shows for the selected node (see
/// `info_lines_of`).
pub fn info_lines(app: &App) -> (r: Vec<String>)
    requires
        app_ok(app@),
        info_fits(app@),
    ensures
        info_lines_of(app@, lines_view(r@)),
{
    proof {
        reveal_strlit("Select a node to view details");
        crate::app::lemma_selected_ok(app@);
    }
    match app.tree.selected_node {
        Some(TreeNodeType::ElfHeader) => render_elf_header(app),
        Some(TreeNodeType::ProgramHeaders) => render_program_headers(app),
        Some(TreeNodeType::SectionHeaders) => render_section_headers(app),
        Some(TreeNodeType::SectionHeader { index }) => render_section_header(app, index),
        Some(TreeNodeType::SectionBody { index }) => render_section_body_info(app, index),
        Some(TreeNodeType::Segment { index }) => render_segment(app, index),
        Some(TreeNodeType::Symbol { index }) => render_symbol(app, index),
        _ => {
            let mut lines: Vec<String> = Vec::new();
            lines.push(String::from_str("Select a node to view details"));
            assert(lines_view(lines@) =~~= seq!["Select a node to view details"@]);
            lines
        },
    }
}

/// Whether the information panel's lines can be written (see `info_fits`);
/// a caller tests this before `info_lines`.
pub fn info_can_render(app: &App) -> (r: bool)
    requires
        app_ok(app@),
    ensures
        r == info_fits(app@),
{
    proof {
        crate::app::lemma_selected_ok(app@);
    }
    match app.tree.selected_node {
        Some(TreeNodeType::Segment { index }) => {
            let d = &app.data;
            let g = &d.segments[index];
            assert(d@.segments[index as int] == g@);
            assert(g@.vaddr + g@.memsz <= u64::MAX);
            let mut i: usize = 0;
            while i < d.sections.len()
                invariant
                    i <= d.sections@.len(),
                    index < d@.segments.len(),
                    d@ == app@.data,
                    app@.tree.selected_node == Some(TreeNodeType::Segment { index }),
                    g@ == d@.segments[index as int],
                    g@.vaddr + g@.memsz <= u64::MAX,
                    forall|q: int|
                        0 <= q < i && mapped_in(g@, #[trigger] d@.sections[q]) ==> d@.sections[q].addr
                            + d@.sections[q].size <= u64::MAX,
                decreases d.sections@.len() - i,
            {
                let s = &d.sections[i];
                assert(d@.sections[i as int] == s@);
                if mapped_exec(g, s) && s.addr > u64::MAX - s.size {
                    assert(mapped_in(d@.segments[index as int], d@.sections[i as int]) && d@.sections[i as int].addr
                        + d@.sections[i as int].size > u64::MAX);
                    return false;
                }
                i = i + 1;
            }
            true
        },
        Some(TreeNodeType::ElfHeader) => app.data.raw_bytes.len() >= 16,
        _ => true,
    }
}

} // verus!
