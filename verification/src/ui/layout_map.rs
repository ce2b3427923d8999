//! The file layout map: which byte ranges of the file hold which structure.

use vstd::prelude::*;

use crate::elf::parser::{sections_view, ElfData, ElfDataView, SectionView};
use crate::sort::{lemma_stable_sort_unique, stable_sort_by_key, stably_sorted, SortKey};
use crate::text::{dec_seq, hex_seq, has_substring, push_dec, push_hex, str_contains, str_contains_char};
use crate::ui::overview::sat_sub;

verus! {

/// Scroll position and selection of the layout map.
#[derive(Debug, Clone, Copy, PartialEq, Eq, Structural)]
pub struct LayoutMapState {
    pub scroll: usize,
    pub selected_row: usize,
    pub region_count: usize,
}

impl LayoutMapState {
    /// The initial state: top of the map, first row selected, no rows known.
    pub fn new() -> (r: Self)
        ensures
            r == (LayoutMapState { scroll: 0, selected_row: 0, region_count: 0 }),
    {
        LayoutMapState { scroll: 0, selected_row: 0, region_count: 0 }
    }
}

impl LayoutMapState {
    /// Fits the selection and scroll to a map of `region_count` rows shown
    /// `visible` lines at a time (two title lines above the rows, a blank
    /// line and a legend below): the selected row stays on a region, the
    /// view scrolls the least needed to show it, and never past the end.
    pub fn fit(&mut self, region_count: usize, visible: u16)
        requires
            visible >= 1,
            region_count <= isize::MAX,
        ensures
            final(self).region_count == region_count,
            ({
                let sel = if old(self).selected_row >= region_count {
                    sat_sub(region_count as int, 1)
                } else {
                    old(self).selected_row as int
                };
                let max_scroll = sat_sub(region_count + 4, visible as int);
                let line = sel + 2;
                let s1 = if line < old(self).scroll { line } else { old(self).scroll as int };
                let s2 = if line >= s1 + visible { line - (visible - 1) } else { s1 };
                &&& final(self).selected_row == sel
                &&& final(self).scroll == if s2 > max_scroll { max_scroll } else { s2 }
            }),
            final(self).scroll <= final(self).selected_row + 2 < final(self).scroll + visible,
    {
        let visible = visible as usize;
        self.region_count = region_count;
        if self.selected_row >= region_count {
            self.selected_row = region_count.saturating_sub(1);
        }
        let data_rows = region_count + 4;
        let max_scroll = data_rows.saturating_sub(visible);
        let sel_line = self.selected_row + 2;
        if sel_line < self.scroll {
            self.scroll = sel_line;
        }
        if sel_line >= self.scroll + visible {
            self.scroll = sel_line - (visible - 1);
        }
        if self.scroll > max_scroll {
            self.scroll = max_scroll;
        }
    }
}

/// A region's label as the map shows it: cut to 37 characters and `...`
/// when it takes more than 40 bytes.
pub open spec fn shown_label(label: Seq<char>) -> Seq<char> {
    if vstd::utf8::encode_utf8(label).len() > 40 {
        crate::text::truncated(label, 37) + "..."@
    } else {
        label
    }
}

/// A region's label as the map shows it (see `shown_label`).
pub fn region_label(label: &str) -> (r: String)
    ensures
        r@ == shown_label(label@),
{
    proof {
        reveal_strlit("...");
    }
    if label.as_bytes().len() > 40 {
        let mut r = String::new();
        crate::text::push_truncated(&mut r, label, 37);
        r.append("...");
        assert(r@ =~= shown_label(label@));
        r
    } else {
        String::from_str(label)
    }
}

/// The palette entry a region is drawn with.
#[derive(Debug, Clone, Copy, PartialEq, Eq, Structural)]
pub enum RegionColor {
    ElfHeader,
    ProgramHeaders,
    SectionHeaders,
    Code,
    WritableData,
    Strings,
    Data,
    Gap,
}

/// The structure a region leads to when chosen.
#[derive(Debug, Clone, Copy, PartialEq, Eq, Structural)]
pub enum LayoutTarget {
    ElfHeader,
    ProgramHeaders,
    SectionHeaders,
    SectionBody(usize),
}

/// One byte range of the file.
#[derive(Debug, Clone)]
pub struct LayoutRegion {
    pub label: String,
    pub offset: u64,
    pub size: u64,
    pub color: RegionColor,
    pub target: Option<LayoutTarget>,
}

/// The abstract value of a `LayoutRegion`.
pub struct RegionView {
    pub label: Seq<char>,
    pub offset: u64,
    pub size: u64,
    pub color: RegionColor,
    pub target: Option<LayoutTarget>,
}

impl View for LayoutRegion {
    type V = RegionView;

    open spec fn view(&self) -> RegionView {
        RegionView {
            label: self.label@,
            offset: self.offset,
            size: self.size,
            color: self.color,
            target: self.target,
        }
    }
}

impl SortKey for LayoutRegion {
    open spec fn spec_key(&self) -> u64 {
        self.offset
    }

    fn sort_key(&self) -> (r: u64) {
        self.offset
    }
}

/// The abstract values of a list of regions.
pub open spec fn regions_view(v: Seq<LayoutRegion>) -> Seq<RegionView> {
    v.map_values(|r: LayoutRegion| r@)
}

/// The byte ranges of the file's tables and sections fit in 64 bits: the
/// program and section header tables, and each section that occupies file
/// bytes.
pub open spec fn layout_fits(d: ElfDataView) -> bool {
    &&& d.phoff + d.phnum * d.phentsize <= u64::MAX
    &&& d.shoff + d.shnum * d.shentsize <= u64::MAX
    &&& forall|i: int|
        0 <= i < d.sections.len() ==> #[trigger] d.sections[i].offset + d.sections[i].size
            <= u64::MAX
}

/// The palette entry of a section: code, writable data, string data or other
/// data.
pub open spec fn section_color(s: SectionView) -> RegionColor {
    if s.flags.contains('X') {
        RegionColor::Code
    } else if s.flags.contains('W') {
        RegionColor::WritableData
    } else if has_substring(s.name, "str"@) {
        RegionColor::Strings
    } else {
        RegionColor::Data
    }
}

/// The sections shown on the map: those with a size and a file offset.
pub open spec fn shown_section(s: SectionView) -> bool {
    s.size != 0 && s.offset != 0
}

/// The region of a shown section.
pub open spec fn section_region(s: SectionView) -> RegionView {
    RegionView {
        label: s.name,
        offset: s.offset,
        size: s.size,
        color: section_color(s),
        target: Some(LayoutTarget::SectionBody(s.index)),
    }
}

/// The regions of the shown sections, in section order.
pub open spec fn section_regions(secs: Seq<SectionView>) -> Seq<RegionView>
    decreases secs.len(),
{
    if secs.len() == 0 {
        Seq::empty()
    } else if shown_section(secs.last()) {
        section_regions(secs.drop_last()).push(section_region(secs.last()))
    } else {
        section_regions(secs.drop_last())
    }
}

/// `label (N entries)` for a header table.
pub open spec fn table_label(name: Seq<char>, count: u16) -> Seq<char> {
    name + seq![' ', '('] + dec_seq(count as nat) + " entries)"@
}

/// The regions of the file header and of the header tables that the file
/// has (a table is there when it has entries and an offset).
pub open spec fn header_regions(d: ElfDataView) -> Seq<RegionView> {
    let elf = RegionView {
        label: "ELF Header"@,
        offset: 0,
        size: d.ehsize as u64,
        color: RegionColor::ElfHeader,
        target: Some(LayoutTarget::ElfHeader),
    };
    let ph = RegionView {
        label: table_label("Program Headers"@, d.phnum),
        offset: d.phoff,
        size: (d.phnum * d.phentsize) as u64,
        color: RegionColor::ProgramHeaders,
        target: Some(LayoutTarget::ProgramHeaders),
    };
    let sh = RegionView {
        label: table_label("Section Headers"@, d.shnum),
        offset: d.shoff,
        size: (d.shnum * d.shentsize) as u64,
        color: RegionColor::SectionHeaders,
        target: Some(LayoutTarget::SectionHeaders),
    };
    seq![elf] + (if d.phnum > 0 && d.phoff > 0 {
        seq![ph]
    } else {
        Seq::empty()
    }) + (if d.shnum > 0 && d.shoff > 0 {
        seq![sh]
    } else {
        Seq::empty()
    })
}

/// The regions of the file's structures, before ordering.
pub open spec fn structure_regions(d: ElfDataView) -> Seq<RegionView> {
    header_regions(d) + section_regions(d.sections)
}

/// An unmapped stretch from `from` to `to`.
pub open spec fn gap_region(from: u64, to: u64) -> RegionView {
    RegionView {
        label: "[unmapped] (0x"@ + hex_seq(from as nat) + "-0x"@ + hex_seq(to as nat) + ")"@,
        offset: from,
        size: (to - from) as u64,
        color: RegionColor::Gap,
        target: None,
    }
}

/// The regions with an unmapped stretch before each one that starts past
/// where the previous one ended (`cursor`), and after the last one when it
/// ends before the end of the file.
pub open spec fn with_gaps(regions: Seq<RegionView>, cursor: u64, file_size: u64) -> Seq<RegionView>
    decreases regions.len(),
{
    if regions.len() == 0 {
        if cursor < file_size {
            seq![gap_region(cursor, file_size)]
        } else {
            Seq::empty()
        }
    } else {
        let r = regions[0];
        (if r.offset > cursor {
            seq![gap_region(cursor, r.offset)]
        } else {
            Seq::empty()
        }) + seq![r] + with_gaps(regions.drop_first(), (r.offset + r.size) as u64, file_size)
    }
}

/// Every region ends at an offset that fits in 64 bits.
pub open spec fn regions_fit(regions: Seq<RegionView>) -> bool {
    forall|i: int| 0 <= i < regions.len() ==> #[trigger] regions[i].offset + regions[i].size <= u64::MAX
}

fn table_label_string(name: &str, count: u16) -> (r: String)
    ensures
        r@ == table_label(name@, count),
{
    proof {
        reveal_strlit(" (");
        reveal_strlit(" entries)");
    }
    let mut r = String::from_str(name);
    r.append(" (");
    push_dec(&mut r, count as u64);
    r.append(" entries)");
    assert(r@ =~= table_label(name@, count));
    r
}

fn gap(from: u64, to: u64) -> (r: LayoutRegion)
    requires
        from < to,
    ensures
        r@ == gap_region(from, to),
{
    proof {
        reveal_strlit("[unmapped] (0x");
        reveal_strlit("-0x");
        reveal_strlit(")");
    }
    let mut label = String::from_str("[unmapped] (0x");
    push_hex(&mut label, from);
    label.append("-0x");
    push_hex(&mut label, to);
    label.append(")");
    assert(label@ =~= gap_region(from, to).label);
    LayoutRegion { label, offset: from, size: to - from, color: RegionColor::Gap, target: None }
}

/// The palette entry of a section.
pub fn color_of_section(s: &crate::elf::parser::SectionInfo) -> (r: RegionColor)
    ensures
        r == section_color(s@),
{
    proof {
        reveal_strlit("str");
    }
    if str_contains_char(s.flags.as_str(), 'X') {
        RegionColor::Code
    } else if str_contains_char(s.flags.as_str(), 'W') {
        RegionColor::WritableData
    } else if str_contains(s.name.as_str(), "str") {
        RegionColor::Strings
    } else {
        RegionColor::Data
    }
}

/// The regions of the file's structures in section order.
fn structure_region_list(data: &ElfData) -> (r: Vec<LayoutRegion>)
    requires
        layout_fits(data@),
    ensures
        regions_view(r@) == structure_regions(data@),
        regions_fit(regions_view(r@)),
{
    proof {
        reveal_strlit("ELF Header");
        reveal_strlit("Program Headers");
        reveal_strlit("Section Headers");
    }
    let mut regions: Vec<LayoutRegion> = Vec::new();
    regions.push(
        LayoutRegion {
            label: String::from_str("ELF Header"),
            offset: 0,
            size: data.ehsize as u64,
            color: RegionColor::ElfHeader,
            target: Some(LayoutTarget::ElfHeader),
        },
    );
    if data.phnum > 0 && data.phoff > 0 {
        regions.push(
            LayoutRegion {
                label: table_label_string("Program Headers", data.phnum),
                offset: data.phoff,
                size: data.phnum as u64 * data.phentsize as u64,
                color: RegionColor::ProgramHeaders,
                target: Some(LayoutTarget::ProgramHeaders),
            },
        );
    }
    if data.shnum > 0 && data.shoff > 0 {
        regions.push(
            LayoutRegion {
                label: table_label_string("Section Headers", data.shnum),
                offset: data.shoff,
                size: data.shnum as u64 * data.shentsize as u64,
                color: RegionColor::SectionHeaders,
                target: Some(LayoutTarget::SectionHeaders),
            },
        );
    }
    assert(regions_view(regions@) =~= header_regions(data@));
    let ghost hdr = header_regions(data@);
    let ghost secs = data@.sections;
    let mut i: usize = 0;
    while i < data.sections.len()
        invariant
            secs == data@.sections,
            secs == sections_view(data.sections@),
            layout_fits(data@),
            i <= data.sections.len(),
            regions_view(regions@) == hdr + section_regions(secs.subrange(0, i as int)),
            regions_fit(regions_view(regions@)),
            hdr == header_regions(data@),
        decreases data.sections.len() - i,
    {
        let s = &data.sections[i];
        proof {
            assert(secs.subrange(0, i + 1).drop_last() =~= secs.subrange(0, i as int));
            assert(secs.subrange(0, i + 1).last() == s@);
        }
        if s.size != 0 && s.offset != 0 {
            let ghost before = regions_view(regions@);
            let region = LayoutRegion {
                label: s.name.clone(),
                offset: s.offset,
                size: s.size,
                color: color_of_section(s),
                target: Some(LayoutTarget::SectionBody(s.index)),
            };
            regions.push(region);
            proof {
                assert(regions_view(regions@) =~= before.push(region@));
                assert(secs[i as int].offset + secs[i as int].size <= u64::MAX);
            }
        }
        i = i + 1;
    }
    assert(secs.subrange(0, data.sections@.len() as int) =~= secs);
    regions
}

impl LayoutRegion {
    /// A copy of this region.
    pub fn duplicate(&self) -> (r: LayoutRegion)
        ensures
            r@ == self@,
    {
        LayoutRegion {
            label: self.label.clone(),
            offset: self.offset,
            size: self.size,
            color: self.color,
            target: self.target,
        }
    }
}

/// `out` is the layout map of the file: the regions of its structures
/// ordered by offset (stably), with the unmapped stretches between and after
/// them.
pub open spec fn layout_of(d: ElfDataView, out: Seq<RegionView>) -> bool {
    exists|u: Seq<LayoutRegion>, s: Seq<LayoutRegion>|
        #![trigger stably_sorted(u, s)]
        regions_view(u) == structure_regions(d) && stably_sorted(u, s) && out == with_gaps(
            regions_view(s),
            0,
            d.raw_bytes.len() as u64,
        )
}

/// A file has one layout map: the relation `layout_of` fixes it.
pub proof fn lemma_layout_unique(d: ElfDataView, o1: Seq<RegionView>, o2: Seq<RegionView>)
    requires
        layout_of(d, o1),
        layout_of(d, o2),
    ensures
        o1 == o2,
{
    let (u1, s1) = choose|u: Seq<LayoutRegion>, s: Seq<LayoutRegion>|
        #![trigger stably_sorted(u, s)]
        regions_view(u) == structure_regions(d) && stably_sorted(u, s) && o1 == with_gaps(
            regions_view(s),
            0,
            d.raw_bytes.len() as u64,
        );
    let (u2, s2) = choose|u: Seq<LayoutRegion>, s: Seq<LayoutRegion>|
        #![trigger stably_sorted(u, s)]
        regions_view(u) == structure_regions(d) && stably_sorted(u, s) && o2 == with_gaps(
            regions_view(s),
            0,
            d.raw_bytes.len() as u64,
        );
    let f = |r: LayoutRegion| r@;
    let kf = |v: RegionView| v.offset;
    assert(regions_view(u1) =~= u1.map_values(f));
    assert(regions_view(u2) =~= u2.map_values(f));
    assert(regions_view(s1) =~= s1.map_values(f));
    assert(regions_view(s2) =~= s2.map_values(f));
    assert forall|x: LayoutRegion| #[trigger] x.spec_key() == kf(f(x)) by {
    }
    lemma_stable_sort_unique(u1, s1, u2, s2, f, kf);
}

/// The layout of the file: the regions of its structures ordered by offset
/// (stably), with the unmapped stretches between and after them.
pub fn build_regions(data: &ElfData) -> (r: Vec<LayoutRegion>)
    requires
        layout_fits(data@),
    ensures
        layout_of(data@, regions_view(r@)),
{
    let unsorted = structure_region_list(data);
    let ghost u = unsorted@;
    let regions = stable_sort_by_key(unsorted);
    let ghost s = regions@;
    let ghost sv = regions_view(s);
    proof {
        assert forall|i: int| 0 <= i < sv.len() implies #[trigger] sv[i].offset + sv[i].size <= u64::MAX by {
            crate::sort::lemma_sorted_from(u, s, i);
            let j = choose|j: int| 0 <= j < u.len() && u[j] == s[i];
            assert(regions_view(u)[j] == sv[i]);
        }
    }
    let file_size = data.raw_bytes.len() as u64;
    let mut out: Vec<LayoutRegion> = Vec::new();
    let mut cursor: u64 = 0;
    let mut i: usize = 0;
    assert(sv.subrange(0, sv.len() as int) =~= sv);
    while i < regions.len()
        invariant
            s == regions@,
            sv == regions_view(s),
            regions_fit(sv),
            i <= regions@.len(),
            regions_view(out@) + with_gaps(sv.subrange(i as int, sv.len() as int), cursor, file_size)
                == with_gaps(sv, 0, file_size),
        decreases regions@.len() - i,
    {
        let r = &regions[i];
        let ghost before = regions_view(out@);
        let ghost c0 = cursor;
        let ghost rest = sv.subrange(i as int, sv.len() as int);
        assert(rest.drop_first() =~= sv.subrange(i + 1, sv.len() as int));
        assert(rest[0] == r@);
        if r.offset > cursor {
            let g = gap(cursor, r.offset);
            out.push(g);
            assert(regions_view(out@) =~= before.push(g@));
        }
        let ghost mid = regions_view(out@);
        assert(sv[i as int].offset + sv[i as int].size <= u64::MAX);
        cursor = r.offset + r.size;
        out.push(r.duplicate());
        proof {
            assert(regions_view(out@) =~= mid.push(r@));
            let tail = with_gaps(sv.subrange(i + 1, sv.len() as int), cursor, file_size);
            let head: Seq<RegionView> = if r@.offset > c0 {
                seq![gap_region(c0, r@.offset)]
            } else {
                Seq::empty()
            };
            assert(with_gaps(rest, c0, file_size) == head + seq![r@] + tail);
            assert(mid =~= before + head);
            assert(regions_view(out@) + tail =~= before + (head + seq![r@] + tail));
        }
        i = i + 1;
    }
    if cursor < file_size {
        let ghost before = regions_view(out@);
        let g = gap(cursor, file_size);
        out.push(g);
        assert(regions_view(out@) =~= before.push(g@));
    }
    assert(regions_view(u) == structure_regions(data@) && stably_sorted(u, s));
    assert(sv.subrange(sv.len() as int, sv.len() as int) =~= Seq::<RegionView>::empty());
    assert(regions_view(out@) == with_gaps(regions_view(s), 0, data@.raw_bytes.len() as u64));
    out
}


/// The regions lie side by side from `from` to `to`: the first starts at
/// `from`, each next one starts where the one before ends, and the last ends
/// at `to` (with no regions, `from` is `to`).
pub open spec fn tiles(out: Seq<RegionView>, from: int, to: int) -> bool {
    &&& out.len() == 0 ==> from == to
    &&& out.len() > 0 ==> out[0].offset == from
    &&& forall|k: int| 0 <= k < out.len() - 1 ==> #[trigger] out[k].offset + out[k].size == out[k + 1].offset
    &&& out.len() > 0 ==> out.last().offset + out.last().size == to
}

/// The regions are in offset order without overlap, none starts before
/// `from`, and all end by `to`.
pub open spec fn disjoint_within(regions: Seq<RegionView>, from: int, to: int) -> bool {
    &&& regions.len() > 0 ==> from <= regions[0].offset
    &&& forall|k: int| 0 <= k < regions.len() - 1 ==> #[trigger] regions[k].offset + regions[k].size <= regions[k + 1].offset
    &&& forall|k: int| 0 <= k < regions.len() ==> #[trigger] regions[k].offset + regions[k].size <= to
    &&& from <= to
}

/// Law: when the file's structures do not overlap and lie within the file,
/// the layout map tiles the file. Filling the holes with unmapped stretches
/// leaves no byte unaccounted for and no byte counted twice: the map starts
/// at offset 0, each region starts where the one before ends, and the last
/// ends at the end of the file.
pub proof fn lemma_gaps_tile(regions: Seq<RegionView>, cursor: u64, file_size: u64)
    requires
        disjoint_within(regions, cursor as int, file_size as int),
    ensures
        tiles(with_gaps(regions, cursor, file_size), cursor as int, file_size as int),
    decreases regions.len(),
{
    if regions.len() > 0 {
        let r = regions[0];
        let next = (r.offset + r.size) as u64;
        let rest = regions.drop_first();
        assert forall|k: int| 0 <= k < rest.len() - 1 implies #[trigger] rest[k].offset + rest[k].size <= rest[k + 1].offset by {
            assert(rest[k] == regions[k + 1] && rest[k + 1] == regions[k + 2]);
        }
        assert forall|k: int| 0 <= k < rest.len() implies #[trigger] rest[k].offset + rest[k].size <= file_size by {
            assert(rest[k] == regions[k + 1]);
        }
        if rest.len() > 0 {
            assert(rest[0] == regions[1]);
        }
        lemma_gaps_tile(rest, next, file_size);
        let tail = with_gaps(rest, next, file_size);
        let head: Seq<RegionView> = if r.offset > cursor {
            seq![gap_region(cursor, r.offset)]
        } else {
            Seq::empty()
        };
        let out = head + seq![r] + tail;
        assert(with_gaps(regions, cursor, file_size) == out);
        assert forall|k: int| 0 <= k < out.len() - 1 implies #[trigger] out[k].offset + out[k].size == out[k + 1].offset by {
            if k < head.len() {
                assert(out[k] == head[k] && out[k + 1] == r);
            } else if k == head.len() {
                assert(out[k] == r);
                assert(out[k + 1] == tail[0]);
            } else {
                assert(out[k] == tail[k - head.len() - 1]);
                assert(out[k + 1] == tail[k - head.len()]);
            }
        }
        if tail.len() == 0 {
            assert(out.last() == r);
        } else {
            assert(out.last() == tail.last());
        }
    }
}

} // verus!
