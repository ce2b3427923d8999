//! The hexdump panel: its cursor and scroll state.

use vstd::prelude::*;

use crate::app::navigate::modes_of;
use crate::app::SectionViewMode;
use crate::elf::parser::{SectionInfo, SectionView};
use crate::text::{hex_seq, pad_left, push_hex, push_hex_padded, push_char};
use crate::ui::overview::{hex_byte, sat_sub};
use crate::ui::strings::is_text_byte;

verus! {

/// Bytes shown on one hexdump row.
pub const BYTES_PER_ROW: usize = 16;

/// Which column the hexdump cursor is in.
#[derive(Debug, Clone, Copy, PartialEq, Eq, Structural)]
pub enum HexCursor {
    Hex,
    Ascii,
}

/// Scroll position (in rows), cursor (a byte offset into the section) and
/// go-to prompt of the hexdump.
#[derive(Debug)]
pub struct HexdumpState {
    pub scroll: usize,
    pub cursor_offset: usize,
    pub cursor_mode: HexCursor,
    pub goto_input: String,
    pub goto_mode: bool,
}

/// The abstract value of a `HexdumpState`.
pub struct HexdumpView {
    pub scroll: usize,
    pub cursor_offset: usize,
    pub cursor_mode: HexCursor,
    pub goto_input: Seq<char>,
    pub goto_mode: bool,
}

impl View for HexdumpState {
    type V = HexdumpView;

    open spec fn view(&self) -> HexdumpView {
        HexdumpView {
            scroll: self.scroll,
            cursor_offset: self.cursor_offset,
            cursor_mode: self.cursor_mode,
            goto_input: self.goto_input@,
            goto_mode: self.goto_mode,
        }
    }
}

impl HexdumpState {
    /// The initial state: top of the section, cursor on its first byte.
    pub fn new() -> (r: Self)
        ensures
            r.scroll == 0,
            r.cursor_offset == 0,
            r.cursor_mode == HexCursor::Hex,
            r.goto_input@ == Seq::<char>::empty(),
            !r.goto_mode,
    {
        HexdumpState {
            scroll: 0,
            cursor_offset: 0,
            cursor_mode: HexCursor::Hex,
            goto_input: String::new(),
            goto_mode: false,
        }
    }

    /// Brings cursor and scroll within a section of `data_len` bytes shown
    /// `visible_rows` rows at a time: the cursor stays on a byte of the
    /// section, the view scrolls the least needed to show the cursor's row,
    /// and never past the last screenful.
    pub fn fit(&mut self, data_len: usize, visible_rows: u16)
        requires
            data_len > 0,
            visible_rows >= 1,
        ensures
            ({
                let total_rows = (data_len + 15) / 16;
                let max_scroll = sat_sub(total_rows, visible_rows as int);
                let c = if old(self).cursor_offset >= data_len {
                    data_len - 1
                } else {
                    old(self).cursor_offset as int
                };
                let row = c / 16;
                let s1 = if row < old(self).scroll { row } else { old(self).scroll as int };
                let s2 = if row >= s1 + visible_rows { row - (visible_rows - 1) } else { s1 };
                &&& final(self).cursor_offset == c
                &&& final(self).scroll == if s2 > max_scroll { max_scroll } else { s2 }
            }),
            final(self).cursor_mode == old(self).cursor_mode,
            final(self).goto_input@ == old(self).goto_input@,
            final(self).goto_mode == old(self).goto_mode,
            final(self).cursor_offset < data_len,
            final(self).scroll <= final(self).cursor_offset / 16 < final(self).scroll + visible_rows,
    {
        let total_rows = data_len / BYTES_PER_ROW + if data_len % BYTES_PER_ROW != 0 {
            1usize
        } else {
            0usize
        };
        assert(total_rows == (data_len + 15) / 16) by (nonlinear_arith)
            requires
                total_rows == data_len / 16 + if data_len % 16 != 0 {
                    1int
                } else {
                    0int
                },
        ;
        let visible_rows = visible_rows as usize;
        let max_scroll = total_rows.saturating_sub(visible_rows);
        if self.cursor_offset >= data_len {
            self.cursor_offset = data_len - 1;
        }
        let cursor_row = self.cursor_offset / BYTES_PER_ROW;
        if cursor_row < self.scroll {
            self.scroll = cursor_row;
        }
        if cursor_row >= self.scroll + visible_rows {
            self.scroll = cursor_row - (visible_rows - 1);
        }
        if self.scroll > max_scroll {
            self.scroll = max_scroll;
        }
    }
}


/// The text column's character for a byte: text bytes as themselves,
/// others as a middle dot.
pub open spec fn ascii_char(b: u8) -> char {
    if is_text_byte(b) {
        b as char
    } else {
        '\u{b7}'
    }
}

/// The hex column's pieces for byte `i` of the row starting at `off`: a
/// gap before the ninth byte, then the byte (marked when it is under the
/// cursor) and a space, or blanks past the end of the data.
pub open spec fn hex_cell_pieces(data: Seq<u8>, off: int, cursor: usize, i: int) -> Seq<(Seq<char>, bool)> {
    (if i == 8 {
        seq![(" "@, false)]
    } else {
        Seq::empty()
    }) + if off + i < data.len() {
        seq![(hex_byte(data[off + i]), off + i == cursor), (" "@, false)]
    } else {
        seq![("   "@, false)]
    }
}

/// The hex column's pieces for bytes `i` to 15 of the row at `off`.
pub open spec fn hex_pieces_from(data: Seq<u8>, off: int, cursor: usize, i: int) -> Seq<(Seq<char>, bool)>
    decreases 16 - i,
{
    if i >= 16 {
        Seq::empty()
    } else {
        hex_cell_pieces(data, off, cursor, i) + hex_pieces_from(data, off, cursor, i + 1)
    }
}

/// The text column's pieces for bytes `i` to 15 of the row at `off`.
pub open spec fn ascii_pieces_from(data: Seq<u8>, off: int, cursor: usize, i: int) -> Seq<(Seq<char>, bool)>
    decreases 16 - i,
{
    if i >= 16 {
        Seq::empty()
    } else {
        (if off + i < data.len() {
            seq![(seq![ascii_char(data[off + i])], off + i == cursor)]
        } else {
            seq![(" "@, false)]
        }) + ascii_pieces_from(data, off, cursor, i + 1)
    }
}

/// The pieces of hexdump row `row` of a section loaded at `base`: the
/// address, the hex column and the text column, the byte under the cursor
/// marked in both.
pub open spec fn row_pieces(data: Seq<u8>, row: int, base: u64, cursor: usize) -> Seq<(Seq<char>, bool)> {
    let off = 16 * row;
    seq![("0x"@ + pad_left(hex_seq((base + off) as nat), 8, '0') + " \u{2502} "@, false)] + hex_pieces_from(
        data,
        off,
        cursor,
        0,
    ) + seq![("\u{2502} "@, false)] + ascii_pieces_from(data, off, cursor, 0)
}

/// The abstract values of a list of pieces.
pub open spec fn pieces_view(v: Seq<(String, bool)>) -> Seq<(Seq<char>, bool)> {
    v.map_values(|p: (String, bool)| (p.0@, p.1))
}

fn push_piece(v: &mut Vec<(String, bool)>, text: String, marked: bool)
    ensures
        pieces_view(final(v)@) == pieces_view(old(v)@).push((text@, marked)),
{
    v.push((text, marked));
    assert(pieces_view(final(v)@) =~= pieces_view(old(v)@).push((text@, marked)));
}

/// The pieces of hexdump row `row` (see `row_pieces`).
pub fn hex_row(data: &[u8], row: usize, base: u64, cursor: usize) -> (r: Vec<(String, bool)>)
    requires
        16 * row < data@.len(),
        base + data@.len() <= u64::MAX,
    ensures
        pieces_view(r@) == row_pieces(data@, row as int, base, cursor),
{
    proof {
        reveal_strlit("0x");
        reveal_strlit(" \u{2502} ");
        reveal_strlit("\u{2502} ");
        reveal_strlit(" ");
        reveal_strlit("   ");
    }
    let len = data.len();
    let off = 16 * row;
    let mut r: Vec<(String, bool)> = Vec::new();
    let mut addr = String::from_str("0x");
    push_hex_padded(&mut addr, base + off as u64, 8);
    addr.append(" \u{2502} ");
    push_piece(&mut r, addr, false);
    let ghost start = pieces_view(r@);
    let mut i: usize = 0;
    while i < 16
        invariant
            i <= 16,
            off == 16 * row,
            off < len,
            len == data@.len(),
            start.len() == 1,
            pieces_view(r@) + hex_pieces_from(data@, off as int, cursor, i as int) == start + hex_pieces_from(
                data@,
                off as int,
                cursor,
                0,
            ),
        decreases 16 - i,
    {
        let ghost before = pieces_view(r@);
        if i == 8 {
            push_piece(&mut r, String::from_str(" "), false);
        }
        if i < len - off {
            let mut cell = String::new();
            push_hex_padded(&mut cell, data[off + i] as u64, 2);
            push_piece(&mut r, cell, off + i == cursor);
            push_piece(&mut r, String::from_str(" "), false);
        } else {
            push_piece(&mut r, String::from_str("   "), false);
        }
        proof {
            assert(pieces_view(r@) =~= before + hex_cell_pieces(data@, off as int, cursor, i as int));
            assert(hex_pieces_from(data@, off as int, cursor, i as int) == hex_cell_pieces(data@, off as int, cursor, i as int)
                + hex_pieces_from(data@, off as int, cursor, i + 1));
            assert(pieces_view(r@) + hex_pieces_from(data@, off as int, cursor, i + 1) =~= before + hex_pieces_from(
                data@,
                off as int,
                cursor,
                i as int,
            ));
        }
        i = i + 1;
    }
    push_piece(&mut r, String::from_str("\u{2502} "), false);
    let ghost mid = pieces_view(r@);
    let mut j: usize = 0;
    while j < 16
        invariant
            j <= 16,
            off == 16 * row,
            off < len,
            len == data@.len(),
            pieces_view(r@) + ascii_pieces_from(data@, off as int, cursor, j as int) == mid + ascii_pieces_from(
                data@,
                off as int,
                cursor,
                0,
            ),
        decreases 16 - j,
    {
        let ghost before = pieces_view(r@);
        if j < len - off {
            let b = data[off + j];
            let c = if 0x20 <= b && b <= 0x7e { b as char } else { '\u{b7}' };
            let mut cell = String::new();
            push_char(&mut cell, c);
            push_piece(&mut r, cell, off + j == cursor);
            assert(cell@ =~= seq![ascii_char(data@[off + j])]);
        } else {
            push_piece(&mut r, String::from_str(" "), false);
        }
        proof {
            assert(ascii_pieces_from(data@, off as int, cursor, j as int) == (if off + j < data@.len() {
                seq![(seq![ascii_char(data@[off + j])], off + j == cursor)]
            } else {
                seq![(" "@, false)]
            }) + ascii_pieces_from(data@, off as int, cursor, j + 1));
            assert(pieces_view(r@) + ascii_pieces_from(data@, off as int, cursor, j + 1) =~= before
                + ascii_pieces_from(data@, off as int, cursor, j as int));
        }
        j = j + 1;
    }
    proof {
        assert(hex_pieces_from(data@, off as int, cursor, 16) =~= Seq::<(Seq<char>, bool)>::empty());
        assert(ascii_pieces_from(data@, off as int, cursor, 16) =~= Seq::<(Seq<char>, bool)>::empty());
        assert(pieces_view(r@) =~= row_pieces(data@, row as int, base, cursor));
    }
    r
}

/// The name under which a view mode is listed.
pub open spec fn mode_name(m: SectionViewMode) -> Seq<char> {
    match m {
        SectionViewMode::Hexdump => "Hexdump"@,
        SectionViewMode::Disassembly => "Disasm"@,
        SectionViewMode::Strings => "Strings"@,
        SectionViewMode::Dynamic => "Dynamic"@,
        SectionViewMode::Info => "Info"@,
    }
}

/// The names of view modes joined by `|`.
pub open spec fn mode_list(ms: Seq<SectionViewMode>) -> Seq<char>
    decreases ms.len(),
{
    if ms.len() == 0 {
        Seq::empty()
    } else if ms.len() == 1 {
        mode_name(ms[0])
    } else {
        mode_list(ms.drop_last()) + "|"@ + mode_name(ms.last())
    }
}

/// The hexdump's title: the section's name and address range, its view
/// modes, and the address under the cursor.
pub open spec fn hexdump_title(s: SectionView, cursor: usize) -> Seq<char> {
    s.name + " - 0x"@ + hex_seq(s.addr as nat) + "-0x"@ + hex_seq((s.addr + s.size) as nat) + " [Hexdump] "@
        + mode_list(modes_of(s)) + "  0x"@ + hex_seq((s.addr + cursor) as nat)
}

fn mode_name_str(m: SectionViewMode) -> (r: &'static str)
    ensures
        r@ == mode_name(m),
{
    proof {
        reveal_strlit("Hexdump");
        reveal_strlit("Disasm");
        reveal_strlit("Strings");
        reveal_strlit("Dynamic");
        reveal_strlit("Info");
    }
    match m {
        SectionViewMode::Hexdump => "Hexdump",
        SectionViewMode::Disassembly => "Disasm",
        SectionViewMode::Strings => "Strings",
        SectionViewMode::Dynamic => "Dynamic",
        SectionViewMode::Info => "Info",
    }
}

/// The hexdump's title (see `hexdump_title`).
pub fn title(section: &SectionInfo, cursor: usize) -> (r: String)
    requires
        section@.addr + section@.size <= u64::MAX,
        section@.addr + cursor <= u64::MAX,
    ensures
        r@ == hexdump_title(section@, cursor),
{
    proof {
        reveal_strlit(" - 0x");
        reveal_strlit("-0x");
        reveal_strlit(" [Hexdump] ");
        reveal_strlit("|");
        reveal_strlit("  0x");
    }
    let mut r = String::from_str(section.name.as_str());
    r.append(" - 0x");
    push_hex(&mut r, section.addr);
    r.append("-0x");
    push_hex(&mut r, section.addr + section.size);
    r.append(" [Hexdump] ");
    let ghost head = r@;
    let modes = crate::app::navigate::available_modes(section);
    let mut i: usize = 0;
    while i < modes.len()
        invariant
            i <= modes@.len(),
            r@ == head + mode_list(modes@.subrange(0, i as int)),
        decreases modes@.len() - i,
    {
        if i > 0 {
            r.append("|");
        }
        r.append(mode_name_str(modes[i]));
        proof {
            let t = modes@.subrange(0, i + 1);
            assert(t.drop_last() =~= modes@.subrange(0, i as int));
            if i == 0 {
                assert(mode_list(modes@.subrange(0, 0)) =~= Seq::<char>::empty());
            }
        }
        i = i + 1;
        assert(r@ =~= head + mode_list(modes@.subrange(0, i as int)));
    }
    assert(modes@.subrange(0, modes@.len() as int) =~= modes@);
    r.append("  0x");
    push_hex(&mut r, section.addr + cursor as u64);
    assert(r@ =~= hexdump_title(section@, cursor));
    r
}

} // verus!
