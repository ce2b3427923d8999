//! The overview panel: its scroll state and the text it shows.

use vstd::prelude::*;
use vstd::utf8::encode_utf8;

use crate::elf::parser::{ElfData, ElfDataView, SectionInfo, SectionView, SegmentInfo, SegmentView};
use crate::text::{
    dec_seq, hex_seq, pad_left, pad_right, push_dec, push_dec_padded, push_hex, push_hex_padded,
    push_padded_right, push_truncated, truncated,
};

verus! {

/// Scroll position and highlighted line of the overview.
#[derive(Debug, Clone, Copy, PartialEq, Eq, Structural)]
pub struct OverviewState {
    pub scroll: usize,
    pub selected_line: usize,
}

impl OverviewState {
    /// The initial state: top of the panel, first line.
    pub fn new() -> (r: Self)
        ensures
            r == (OverviewState { scroll: 0, selected_line: 0 }),
    {
        OverviewState { scroll: 0, selected_line: 0 }
    }

    /// Keeps the scroll position within the text: with `total_lines` lines
    /// shown in a panel `area_height` rows high (two of them borders), the
    /// scroll goes no further than the last screenful.
    pub fn clamp_scroll(&mut self, total_lines: u16, area_height: u16)
        ensures
            ({
                let max_scroll = sat_sub(total_lines as int, sat_sub(area_height as int, 2));
                &&& final(self).selected_line == old(self).selected_line
                &&& final(self).scroll == if old(self).scroll > max_scroll {
                    max_scroll as usize
                } else {
                    old(self).scroll
                }
            }),
    {
        let inner = area_height.saturating_sub(2);
        let max_scroll = total_lines.saturating_sub(inner) as usize;
        if self.scroll > max_scroll {
            self.scroll = max_scroll;
        }
    }
}

/// `a - b`, or 0 when `b` exceeds `a`.
pub open spec fn sat_sub(a: int, b: int) -> int {
    if a >= b {
        a - b
    } else {
        0
    }
}


/// A byte as two lowercase hexadecimal digits, as `{:02x}` writes it.
pub open spec fn hex_byte(b: u8) -> Seq<char> {
    pad_left(hex_seq(b as nat), 2, '0')
}

/// The bytes as `{:02x}` writes each, separated by `", "`.
pub open spec fn byte_items(bs: Seq<u8>) -> Seq<char>
    decreases bs.len(),
{
    if bs.len() == 0 {
        Seq::empty()
    } else if bs.len() == 1 {
        hex_byte(bs[0])
    } else {
        byte_items(bs.drop_last()) + ", "@ + hex_byte(bs.last())
    }
}

/// A list of bytes as `{:02x?}` writes a byte slice: `[7f, 45, ...]`.
pub open spec fn byte_list(bs: Seq<u8>) -> Seq<char> {
    "["@ + byte_items(bs) + "]"@
}

/// A section name in the overview's name column: cut to 20 characters when
/// it takes more than 20 bytes, else padded to 20 characters.
pub open spec fn name_cell(name: Seq<char>) -> Seq<char> {
    if encode_utf8(name).len() > 20 {
        truncated(name, 20)
    } else {
        pad_right(name, 20)
    }
}

/// `0x` and `n` in hexadecimal zero-padded to `width` digits.
pub open spec fn hex_cell(n: nat, width: nat) -> Seq<char> {
    "0x"@ + pad_left(hex_seq(n), width, '0')
}

/// The overview's line for a section.
pub open spec fn section_row(s: SectionView) -> Seq<char> {
    "["@ + pad_left(dec_seq(s.index as nat), 2, ' ') + "] "@ + name_cell(s.name) + " "@ + pad_right(s.ty, 10)
        + " "@ + hex_cell(s.addr as nat, 8) + " "@ + hex_cell(s.offset as nat, 6) + " "@ + hex_cell(
        s.size as nat,
        6,
    ) + " "@ + pad_right(s.flags, 3)
}

/// The overview's line for a segment.
pub open spec fn segment_row(g: SegmentView) -> Seq<char> {
    "  "@ + pad_right(g.ty, 14) + " "@ + hex_cell(g.offset as nat, 6) + " "@ + hex_cell(g.vaddr as nat, 8)
        + " "@ + hex_cell(g.paddr as nat, 8) + " "@ + hex_cell(g.filesz as nat, 6) + " "@ + hex_cell(
        g.memsz as nat,
        6,
    ) + " "@ + pad_right(g.flags, 3) + " 0x"@ + hex_seq(g.align as nat)
}

/// `label: 0xOFF (N entries, M bytes each)` for a header table.
pub open spec fn table_line(label: Seq<char>, off: u64, num: u16, entsize: u16) -> Seq<char> {
    label + "0x"@ + hex_seq(off as nat) + " ("@ + dec_seq(num as nat) + " entries, "@ + dec_seq(
        entsize as nat,
    ) + " bytes each)"@
}

/// The file type, marked as a PIE executable when it is one.
pub open spec fn type_text(d: ElfDataView) -> Seq<char> {
    if d.is_pie {
        d.elf_type + " (PIE executable)"@
    } else {
        d.elf_type
    }
}

/// The header part of the overview, with the given class and data texts.
pub open spec fn header_lines(d: ElfDataView, class_text: Seq<char>, data_text: Seq<char>) -> Seq<Seq<char>> {
    seq![
        "ELF Header"@,
        "  Magic:   "@ + byte_list(d.raw_bytes.subrange(0, 16)),
        "  Class:   "@ + class_text,
        "  Data:    "@ + data_text,
        "  Version: "@ + dec_seq(d.version as nat) + " (current)"@,
        "  OS/ABI:  "@ + d.os_abi,
        "  Type:    "@ + type_text(d),
        "  Machine: "@ + d.machine,
        "  Entry:   0x"@ + hex_seq(d.entry as nat),
        table_line("  PH off:  "@, d.phoff, d.phnum, d.phentsize),
        table_line("  SH off:  "@, d.shoff, d.shnum, d.shentsize),
        "  Flags:   0x"@ + hex_seq(d.flags as nat),
        Seq::empty(),
    ]
}

/// The title line of the overview's section table.
pub open spec fn sections_title() -> Seq<char> {
    "[Nr] Name                  Type       Address    Offset    Size      Flags"@
}

/// The title line of the overview's segment table.
pub open spec fn segments_title() -> Seq<char> {
    "Program Headers:  Type       Offset   VirtAddr  PhysAddr  FileSiz  MemSiz   Flg Align"@
}

/// The overview's lines with the given class and data texts: the header,
/// the section table and the segment table.
pub open spec fn overview_text(d: ElfDataView, class_text: Seq<char>, data_text: Seq<char>) -> Seq<Seq<char>> {
    header_lines(d, class_text, data_text) + seq![sections_title()] + Seq::new(
        d.sections.len(),
        |i: int| section_row(d.sections[i]),
    ) + seq![Seq::empty(), segments_title()] + Seq::new(d.segments.len(), |i: int| segment_row(d.segments[i]))
}

/// The overview's lines as search reads them: any class but 64-bit reads
/// as 32-bit, any data encoding but little endian as big endian.
pub open spec fn overview_lines(d: ElfDataView) -> Seq<Seq<char>> {
    overview_text(
        d,
        if d.class == 2 { "ELF64"@ } else { "ELF32"@ },
        if d.data == 1 { "2's complement, little endian"@ } else { "2's complement, big endian"@ },
    )
}

/// The overview's lines as the panel shows them: an unknown class or data
/// encoding shows as such.
pub open spec fn overview_display_lines(d: ElfDataView) -> Seq<Seq<char>> {
    overview_text(
        d,
        if d.class == 1 { "ELF32"@ } else if d.class == 2 { "ELF64"@ } else { "Unknown"@ },
        if d.data == 1 {
            "2's complement, little endian"@
        } else if d.data == 2 {
            "2's complement, big endian"@
        } else {
            "Unknown"@
        },
    )
}

/// Law: the overview's header lines show the two header tables where each
/// lies: line 9 gives after `0x` the hexadecimal offset of the program
/// header table, line 10 that of the section header table, each read back
/// as that offset, followed by the table's entry count and entry size in
/// decimal; line 8 gives the entry point the same way. This holds of the
/// lines search reads and of the lines the panel shows.
pub proof fn lemma_overview_header_tables(d: ElfDataView)
    ensures
        ({
            let ph = "  PH off:  0x"@ + hex_seq(d.phoff as nat) + " ("@ + dec_seq(d.phnum as nat) + " entries, "@
                + dec_seq(d.phentsize as nat) + " bytes each)"@;
            let sh = "  SH off:  0x"@ + hex_seq(d.shoff as nat) + " ("@ + dec_seq(d.shnum as nat) + " entries, "@
                + dec_seq(d.shentsize as nat) + " bytes each)"@;
            let entry = "  Entry:   0x"@ + hex_seq(d.entry as nat);
            &&& overview_lines(d)[8] == entry && overview_display_lines(d)[8] == entry
            &&& overview_lines(d)[9] == ph && overview_display_lines(d)[9] == ph
            &&& overview_lines(d)[10] == sh && overview_display_lines(d)[10] == sh
        }),
        crate::ui::search::parse_hex_u64(hex_seq(d.phoff as nat)) == Some(d.phoff),
        crate::ui::search::parse_hex_u64(hex_seq(d.shoff as nat)) == Some(d.shoff),
        crate::ui::search::parse_hex_u64(hex_seq(d.entry as nat)) == Some(d.entry),
{
    crate::ui::search::lemma_parse_hex_round_trip(d.phoff);
    crate::ui::search::lemma_parse_hex_round_trip(d.shoff);
    crate::ui::search::lemma_parse_hex_round_trip(d.entry);
    assert(("  PH off:  "@ + "0x"@) =~= "  PH off:  0x"@) by {
        reveal_strlit("  PH off:  ");
        reveal_strlit("0x");
        reveal_strlit("  PH off:  0x");
    }
    assert(("  SH off:  "@ + "0x"@) =~= "  SH off:  0x"@) by {
        reveal_strlit("  SH off:  ");
        reveal_strlit("0x");
        reveal_strlit("  SH off:  0x");
    }
    let h = "  PH off:  "@;
    let g = "  SH off:  "@;
    assert(table_line(h, d.phoff, d.phnum, d.phentsize) =~= "  PH off:  0x"@ + hex_seq(d.phoff as nat) + " ("@
        + dec_seq(d.phnum as nat) + " entries, "@ + dec_seq(d.phentsize as nat) + " bytes each)"@);
    assert(table_line(g, d.shoff, d.shnum, d.shentsize) =~= "  SH off:  0x"@ + hex_seq(d.shoff as nat) + " ("@
        + dec_seq(d.shnum as nat) + " entries, "@ + dec_seq(d.shentsize as nat) + " bytes each)"@);
}

/// Law: after the 13 header lines and the table title, the overview shows
/// one line per section in order: number, name, type, then address, file
/// offset and size as zero-padded hexadecimal, then flags.
#[verifier::rlimit(40)]
pub proof fn lemma_overview_section_rows(d: ElfDataView)
    ensures
        overview_lines(d).len() == 16 + d.sections.len() + d.segments.len(),
        forall|i: int|
            0 <= i < d.sections.len() ==> {
                let s = #[trigger] d.sections[i];
                overview_lines(d)[14 + i] == "["@ + pad_left(dec_seq(s.index as nat), 2, ' ') + "] "@ + name_cell(
                    s.name,
                ) + " "@ + pad_right(s.ty, 10) + " "@ + "0x"@ + pad_left(hex_seq(s.addr as nat), 8, '0') + " "@
                    + "0x"@ + pad_left(hex_seq(s.offset as nat), 6, '0') + " "@ + "0x"@ + pad_left(
                    hex_seq(s.size as nat),
                    6,
                    '0',
                ) + " "@ + pad_right(s.flags, 3)
            },
{
    let lines = overview_lines(d);
    assert forall|i: int| 0 <= i < d.sections.len() implies {
        let s = #[trigger] d.sections[i];
        lines[14 + i] == "["@ + pad_left(dec_seq(s.index as nat), 2, ' ') + "] "@ + name_cell(s.name) + " "@
            + pad_right(s.ty, 10) + " "@ + "0x"@ + pad_left(hex_seq(s.addr as nat), 8, '0') + " "@ + "0x"@ + pad_left(
            hex_seq(s.offset as nat),
            6,
            '0',
        ) + " "@ + "0x"@ + pad_left(hex_seq(s.size as nat), 6, '0') + " "@ + pad_right(s.flags, 3)
    } by {
        let s = d.sections[i];
        assert(lines[14 + i] == section_row(s));
        assert(section_row(s) =~= "["@ + pad_left(dec_seq(s.index as nat), 2, ' ') + "] "@ + name_cell(s.name) + " "@
            + pad_right(s.ty, 10) + " "@ + "0x"@ + pad_left(hex_seq(s.addr as nat), 8, '0') + " "@ + "0x"@ + pad_left(
            hex_seq(s.offset as nat),
            6,
            '0',
        ) + " "@ + "0x"@ + pad_left(hex_seq(s.size as nat), 6, '0') + " "@ + pad_right(s.flags, 3));
    }
}

/// Law: after the section lines, a blank line and the second title, the
/// overview shows one line per segment in order: type, then file offset,
/// virtual address, physical address, file size and memory size as
/// zero-padded hexadecimal, flags and alignment.
#[verifier::rlimit(40)]
pub proof fn lemma_overview_segment_rows(d: ElfDataView)
    ensures
        forall|i: int|
            0 <= i < d.segments.len() ==> {
                let g = #[trigger] d.segments[i];
                overview_lines(d)[16 + d.sections.len() + i] == "  "@ + pad_right(g.ty, 14) + " "@ + "0x"@
                    + pad_left(hex_seq(g.offset as nat), 6, '0') + " "@ + "0x"@ + pad_left(hex_seq(g.vaddr as nat), 8, '0')
                    + " "@ + "0x"@ + pad_left(hex_seq(g.paddr as nat), 8, '0') + " "@ + "0x"@ + pad_left(
                    hex_seq(g.filesz as nat),
                    6,
                    '0',
                ) + " "@ + "0x"@ + pad_left(hex_seq(g.memsz as nat), 6, '0') + " "@ + pad_right(g.flags, 3) + " 0x"@
                    + hex_seq(g.align as nat)
            },
{
    let lines = overview_lines(d);
    let n = d.sections.len();
    assert forall|i: int| 0 <= i < d.segments.len() implies {
        let g = #[trigger] d.segments[i];
        lines[16 + n + i] == "  "@ + pad_right(g.ty, 14) + " "@ + "0x"@ + pad_left(hex_seq(g.offset as nat), 6, '0')
            + " "@ + "0x"@ + pad_left(hex_seq(g.vaddr as nat), 8, '0') + " "@ + "0x"@ + pad_left(
            hex_seq(g.paddr as nat),
            8,
            '0',
        ) + " "@ + "0x"@ + pad_left(hex_seq(g.filesz as nat), 6, '0') + " "@ + "0x"@ + pad_left(
            hex_seq(g.memsz as nat),
            6,
            '0',
        ) + " "@ + pad_right(g.flags, 3) + " 0x"@ + hex_seq(g.align as nat)
    } by {
        let g = d.segments[i];
        assert(lines[16 + n + i] == segment_row(g));
        assert(segment_row(g) =~= "  "@ + pad_right(g.ty, 14) + " "@ + "0x"@ + pad_left(hex_seq(g.offset as nat), 6, '0')
            + " "@ + "0x"@ + pad_left(hex_seq(g.vaddr as nat), 8, '0') + " "@ + "0x"@ + pad_left(
            hex_seq(g.paddr as nat),
            8,
            '0',
        ) + " "@ + "0x"@ + pad_left(hex_seq(g.filesz as nat), 6, '0') + " "@ + "0x"@ + pad_left(
            hex_seq(g.memsz as nat),
            6,
            '0',
        ) + " "@ + pad_right(g.flags, 3) + " 0x"@ + hex_seq(g.align as nat));
    }
}

/// The abstract values of a list of strings.
pub open spec fn lines_view(v: Seq<String>) -> Seq<Seq<char>> {
    v.map_values(|s: String| s@)
}

/// A list of bytes as `{:02x?}` writes a byte slice.
pub fn byte_list_text(bs: &[u8]) -> (r: String)
    ensures
        r@ == byte_list(bs@),
{
    proof {
        reveal_strlit("[");
        reveal_strlit("]");
        reveal_strlit(", ");
    }
    let mut r = String::from_str("[");
    let mut i: usize = 0;
    while i < bs.len()
        invariant
            i <= bs@.len(),
            r@ == "["@ + byte_items(bs@.subrange(0, i as int)),
        decreases bs@.len() - i,
    {
        let ghost before = r@;
        if i > 0 {
            r.append(", ");
        }
        push_hex_padded(&mut r, bs[i] as u64, 2);
        proof {
            let t = bs@.subrange(0, i + 1);
            assert(t.drop_last() =~= bs@.subrange(0, i as int));
            assert(t.last() == bs@[i as int]);
            if i == 0 {
                assert(byte_items(bs@.subrange(0, 0)) =~= Seq::<char>::empty());
            }
        }
        i = i + 1;
        assert(r@ =~= "["@ + byte_items(bs@.subrange(0, i as int)));
    }
    r.append("]");
    assert(bs@.subrange(0, bs@.len() as int) =~= bs@);
    assert(r@ =~= byte_list(bs@));
    r
}

fn push_hex_cell(r: &mut String, n: u64, width: usize)
    ensures
        final(r)@ == old(r)@ + hex_cell(n as nat, width as nat),
{
    proof {
        reveal_strlit("0x");
    }
    r.append("0x");
    push_hex_padded(r, n, width);
    assert(final(r)@ =~= old(r)@ + hex_cell(n as nat, width as nat));
}

/// The overview's line for a section.
pub fn section_row_string(s: &SectionInfo) -> (r: String)
    ensures
        r@ == section_row(s@),
{
    proof {
        reveal_strlit("[");
        reveal_strlit("] ");
        reveal_strlit(" ");
    }
    let mut r = String::from_str("[");
    push_dec_padded(&mut r, s.index as u64, 2);
    r.append("] ");
    if s.name.as_str().as_bytes().len() > 20 {
        push_truncated(&mut r, s.name.as_str(), 20);
    } else {
        push_padded_right(&mut r, s.name.as_str(), 20);
    }
    r.append(" ");
    push_padded_right(&mut r, s.ty.as_str(), 10);
    r.append(" ");
    push_hex_cell(&mut r, s.addr, 8);
    r.append(" ");
    push_hex_cell(&mut r, s.offset, 6);
    r.append(" ");
    push_hex_cell(&mut r, s.size, 6);
    r.append(" ");
    push_padded_right(&mut r, s.flags.as_str(), 3);
    assert(r@ =~= section_row(s@));
    r
}

/// The overview's line for a segment.
pub fn segment_row_string(g: &SegmentInfo) -> (r: String)
    ensures
        r@ == segment_row(g@),
{
    proof {
        reveal_strlit("  ");
        reveal_strlit(" ");
        reveal_strlit(" 0x");
    }
    let mut r = String::from_str("  ");
    push_padded_right(&mut r, g.ty.as_str(), 14);
    r.append(" ");
    push_hex_cell(&mut r, g.offset, 6);
    r.append(" ");
    push_hex_cell(&mut r, g.vaddr, 8);
    r.append(" ");
    push_hex_cell(&mut r, g.paddr, 8);
    r.append(" ");
    push_hex_cell(&mut r, g.filesz, 6);
    r.append(" ");
    push_hex_cell(&mut r, g.memsz, 6);
    r.append(" ");
    push_padded_right(&mut r, g.flags.as_str(), 3);
    r.append(" 0x");
    push_hex(&mut r, g.align);
    assert(r@ =~= segment_row(g@));
    r
}

fn table_line_string(label: &str, off: u64, num: u16, entsize: u16) -> (r: String)
    ensures
        r@ == table_line(label@, off, num, entsize),
{
    proof {
        reveal_strlit("0x");
        reveal_strlit(" (");
        reveal_strlit(" entries, ");
        reveal_strlit(" bytes each)");
    }
    let mut r = String::from_str(label);
    r.append("0x");
    push_hex(&mut r, off);
    r.append(" (");
    push_dec(&mut r, num as u64);
    r.append(" entries, ");
    push_dec(&mut r, entsize as u64);
    r.append(" bytes each)");
    assert(r@ =~= table_line(label@, off, num, entsize));
    r
}

fn prefixed(label: &str, text: &str) -> (r: String)
    ensures
        r@ == label@ + text@,
{
    let mut r = String::from_str(label);
    r.append(text);
    r
}

fn prefixed_hex(label: &str, n: u64) -> (r: String)
    ensures
        r@ == label@ + hex_seq(n as nat),
{
    let mut r = String::from_str(label);
    push_hex(&mut r, n);
    r
}

fn header_line_strings(data: &ElfData, class_text: &str, data_text: &str) -> (r: Vec<String>)
    requires
        data@.raw_bytes.len() >= 16,
    ensures
        lines_view(r@) == header_lines(data@, class_text@, data_text@),
{
    proof {
        reveal_strlit("ELF Header");
        reveal_strlit("  Magic:   ");
        reveal_strlit("  Class:   ");
        reveal_strlit("  Data:    ");
        reveal_strlit("  Version: ");
        reveal_strlit(" (current)");
        reveal_strlit("  OS/ABI:  ");
        reveal_strlit("  Type:    ");
        reveal_strlit(" (PIE executable)");
        reveal_strlit("  Machine: ");
        reveal_strlit("  Entry:   0x");
        reveal_strlit("  PH off:  ");
        reveal_strlit("  SH off:  ");
        reveal_strlit("  Flags:   0x");
    }
    let mut lines: Vec<String> = Vec::new();
    lines.push(String::from_str("ELF Header"));
    let magic = byte_list_text(vstd::slice::slice_subrange(data.raw_bytes.as_slice(), 0, 16));
    lines.push(prefixed("  Magic:   ", magic.as_str()));
    lines.push(prefixed("  Class:   ", class_text));
    lines.push(prefixed("  Data:    ", data_text));
    let mut version = String::from_str("  Version: ");
    push_dec(&mut version, data.version as u64);
    version.append(" (current)");
    lines.push(version);
    lines.push(prefixed("  OS/ABI:  ", data.os_abi.as_str()));
    let mut ty = String::from_str("  Type:    ");
    ty.append(data.elf_type.as_str());
    if data.is_pie {
        ty.append(" (PIE executable)");
    }
    lines.push(ty);
    lines.push(prefixed("  Machine: ", data.machine.as_str()));
    lines.push(prefixed_hex("  Entry:   0x", data.entry));
    lines.push(table_line_string("  PH off:  ", data.phoff, data.phnum, data.phentsize));
    lines.push(table_line_string("  SH off:  ", data.shoff, data.shnum, data.shentsize));
    lines.push(prefixed_hex("  Flags:   0x", data.flags as u64));
    lines.push(String::new());
    proof {
        assert(data@.raw_bytes.subrange(0, 16) =~= data.raw_bytes@.subrange(0, 16));
        assert(lines_view(lines@) =~~= header_lines(data@, class_text@, data_text@));
    }
    lines
}

fn overview_text_strings(data: &ElfData, class_text: &str, data_text: &str) -> (r: Vec<String>)
    requires
        data@.raw_bytes.len() >= 16,
    ensures
        lines_view(r@) == overview_text(data@, class_text@, data_text@),
{
    proof {
        reveal_strlit("[Nr] Name                  Type       Address    Offset    Size      Flags");
        reveal_strlit("Program Headers:  Type       Offset   VirtAddr  PhysAddr  FileSiz  MemSiz   Flg Align");
    }
    let mut lines = header_line_strings(data, class_text, data_text);
    let ghost hdr = lines@;
    lines.push(String::from_str("[Nr] Name                  Type       Address    Offset    Size      Flags"));
    let ghost head = lines_view(lines@);
    assert(head =~= header_lines(data@, class_text@, data_text@) + seq![sections_title()]);
    let mut i: usize = 0;
    while i < data.sections.len()
        invariant
            i <= data.sections@.len(),
            lines_view(lines@) == head + Seq::new(i as nat, |k: int| section_row(data@.sections[k])),
        decreases data.sections@.len() - i,
    {
        let row = section_row_string(&data.sections[i]);
        assert(data@.sections[i as int] == data.sections@[i as int]@);
        let ghost before = lines@;
        lines.push(row);
        assert(lines_view(lines@) =~= lines_view(before).push(row@));
        i = i + 1;
        assert(lines_view(lines@) =~= head + Seq::new(i as nat, |k: int| section_row(data@.sections[k])));
    }
    let ghost secs = Seq::new(data@.sections.len(), |k: int| section_row(data@.sections[k]));
    assert(lines_view(lines@) == head + secs);
    let ghost before_gap = lines@;
    lines.push(String::new());
    lines.push(String::from_str("Program Headers:  Type       Offset   VirtAddr  PhysAddr  FileSiz  MemSiz   Flg Align"));
    let ghost mid = lines_view(lines@);
    assert(mid =~= head + secs + seq![Seq::<char>::empty(), segments_title()]);
    let mut j: usize = 0;
    while j < data.segments.len()
        invariant
            j <= data.segments@.len(),
            lines_view(lines@) == mid + Seq::new(j as nat, |k: int| segment_row(data@.segments[k])),
        decreases data.segments@.len() - j,
    {
        let row = segment_row_string(&data.segments[j]);
        assert(data@.segments[j as int] == data.segments@[j as int]@);
        let ghost before = lines@;
        lines.push(row);
        assert(lines_view(lines@) =~= lines_view(before).push(row@));
        j = j + 1;
        assert(lines_view(lines@) =~= mid + Seq::new(j as nat, |k: int| segment_row(data@.segments[k])));
    }
    proof {
        let segs = Seq::new(data@.segments.len(), |k: int| segment_row(data@.segments[k]));
        assert(lines_view(lines@) == mid + segs);
        assert(head == header_lines(data@, class_text@, data_text@) + seq![sections_title()]);
        assert(lines_view(lines@) =~= overview_text(data@, class_text@, data_text@));
    }
    lines
}

/// The overview's lines as search reads them (see `overview_lines`).
pub fn overview_search_lines(data: &ElfData) -> (r: Vec<String>)
    requires
        data@.raw_bytes.len() >= 16,
    ensures
        lines_view(r@) == overview_lines(data@),
{
    proof {
        reveal_strlit("ELF64");
        reveal_strlit("ELF32");
        reveal_strlit("2's complement, little endian");
        reveal_strlit("2's complement, big endian");
    }
    let class_text = if data.class == 2 { "ELF64" } else { "ELF32" };
    let data_text = if data.data == 1 {
        "2's complement, little endian"
    } else {
        "2's complement, big endian"
    };
    overview_text_strings(data, class_text, data_text)
}

/// The overview's lines as the panel shows them (see
/// `overview_display_lines`).
pub fn overview_display_strings(data: &ElfData) -> (r: Vec<String>)
    requires
        data@.raw_bytes.len() >= 16,
    ensures
        lines_view(r@) == overview_display_lines(data@),
{
    proof {
        reveal_strlit("ELF64");
        reveal_strlit("ELF32");
        reveal_strlit("Unknown");
        reveal_strlit("2's complement, little endian");
        reveal_strlit("2's complement, big endian");
    }
    let class_text = if data.class == 1 {
        "ELF32"
    } else if data.class == 2 {
        "ELF64"
    } else {
        "Unknown"
    };
    let data_text = if data.data == 1 {
        "2's complement, little endian"
    } else if data.data == 2 {
        "2's complement, big endian"
    } else {
        "Unknown"
    };
    overview_text_strings(data, class_text, data_text)
}

} // verus!
