//! Moving about the viewer: scrolling the shown panel, choosing the panel
//! for the selected node, cycling a section's view modes and following the
//! layout map to a structure.

use vstd::prelude::*;

use crate::app::{
    app_ok, data_ok, lemma_selected_ok, type_ok, App, AppView, DetailView, SectionViewMode,
};
use crate::elf::disasm::{disassemble_named, disasm_of, DisasmView};
use crate::elf::parser::{symbols_view, SectionInfo, SectionView};
use crate::text::{has_substring, str_contains, str_contains_char};
use crate::ui::disasm::DisasmState;
use crate::ui::info::InfoState;
use crate::ui::layout_map::{build_regions, layout_of, regions_view, shown_section, LayoutTarget, RegionView};
use crate::ui::overview::{sat_sub, OverviewState};
use crate::ui::strings::StringsState;
use crate::ui::tree::{node_selected, TreeNodeType};

verus! {

/// Where the shown panel is: its highlighted line for the line panels, its
/// scroll position for the others.
pub open spec fn position_of(a: AppView) -> usize {
    match a.current_view {
        DetailView::Overview => a.overview.selected_line,
        DetailView::StructuredInfo => a.info.selected_line,
        DetailView::Strings => a.strings.selected_line,
        DetailView::LayoutMap => a.layout_map.scroll,
        DetailView::Hexdump => a.hexdump.scroll,
        DetailView::Disassembly => a.disasm.scroll,
    }
}

/// The viewer with the shown panel moved to `v` (see `position_of`).
#[verifier::opaque]
pub open spec fn with_position(a: AppView, v: usize) -> AppView {
    match a.current_view {
        DetailView::Overview => AppView { overview: OverviewState { selected_line: v, ..a.overview }, ..a },
        DetailView::StructuredInfo => AppView { info: InfoState { selected_line: v, ..a.info }, ..a },
        DetailView::Strings => AppView { strings: StringsState { selected_line: v, ..a.strings }, ..a },
        DetailView::LayoutMap => AppView {
            layout_map: crate::ui::layout_map::LayoutMapState { scroll: v, ..a.layout_map },
            ..a
        },
        DetailView::Hexdump => AppView { hexdump: crate::ui::hexdump::HexdumpView { scroll: v, ..a.hexdump }, ..a },
        DetailView::Disassembly => AppView { disasm: DisasmState { scroll: v, ..a.disasm }, ..a },
    }
}

/// The viewer after moving the shown panel `n` lines up, stopping at the
/// top.
pub open spec fn scrolled_up(a: AppView, n: usize) -> AppView {
    with_position(a, sat_sub(position_of(a) as int, n as int) as usize)
}

/// The viewer after moving the shown panel `n` lines down.
pub open spec fn scrolled_down(a: AppView, n: usize) -> AppView {
    with_position(a, (position_of(a) + n) as usize)
}

/// Moving `n` lines down stays within `usize`.
pub open spec fn down_fits(a: AppView, n: usize) -> bool {
    position_of(a) + n <= usize::MAX
}

/// The panel shown for a selected node that is not a section's body.
pub open spec fn view_of_node(t: TreeNodeType) -> DetailView {
    match t {
        TreeNodeType::Overview => DetailView::Overview,
        TreeNodeType::LayoutMap => DetailView::LayoutMap,
        TreeNodeType::ElfHeader => DetailView::StructuredInfo,
        TreeNodeType::ProgramHeaders => DetailView::StructuredInfo,
        TreeNodeType::SectionHeaders => DetailView::StructuredInfo,
        TreeNodeType::SectionsGroup => DetailView::Overview,
        TreeNodeType::SectionHeader { .. } => DetailView::StructuredInfo,
        TreeNodeType::SectionBody { .. } => DetailView::Hexdump,
        TreeNodeType::SegmentsGroup => DetailView::Overview,
        TreeNodeType::Segment { .. } => DetailView::StructuredInfo,
        TreeNodeType::SymbolsGroup => DetailView::Overview,
        TreeNodeType::Symbol { .. } => DetailView::Disassembly,
    }
}

/// The viewer with the disassembly `d` of section `index` loaded: the
/// function list back at its first function and instruction.
pub open spec fn with_disasm(a: AppView, index: usize, d: DisasmView) -> AppView {
    AppView {
        disasm_cache: Some(d),
        current_disasm_section: Some(index),
        disasm: DisasmState { selected_function: 0, scroll: 0 },
        ..a
    }
}

/// `b` is `a` after loading the disassembly of section `index` (with its
/// functions named after the file's symbols).
pub open spec fn disasm_loaded(a: AppView, index: usize, b: AppView) -> bool {
    b.disasm_cache matches Some(d) && disasm_of(a.data.sections[index as int], a.data.symbols, d) && b
        == with_disasm(a, index, d)
}

/// `b` is `a` after choosing the panel for the selected node. A section
/// with bytes in the file is shown by its type: an executable one in the
/// disassembly (loaded first unless it is the one loaded), any other as a
/// hexdump; one without bytes is shown as information. Other nodes have a
/// fixed panel; with no node selected nothing changes.
#[verifier::opaque]
pub open spec fn view_updated(a: AppView, b: AppView) -> bool {
    match a.tree.selected_node {
        None => b == a,
        Some(TreeNodeType::SectionBody { index }) => {
            let s = a.data.sections[index as int];
            if !shown_section(s) {
                b == AppView {
                    section_view_mode: Some(SectionViewMode::Info),
                    current_view: DetailView::StructuredInfo,
                    ..a
                }
            } else if s.flags.contains('X') {
                let a1 = AppView {
                    section_view_mode: Some(SectionViewMode::Disassembly),
                    current_view: DetailView::Disassembly,
                    ..a
                };
                if a.current_disasm_section != Some(index) {
                    disasm_loaded(a1, index, b)
                } else {
                    b == a1
                }
            } else {
                b == AppView { section_view_mode: Some(SectionViewMode::Hexdump), current_view: DetailView::Hexdump, ..a }
            }
        },
        Some(t) => b == AppView { current_view: view_of_node(t), ..a },
    }
}

/// Law: choosing the panel for the selected node shows the structured
/// information for the file header, the two header tables, a section header
/// and a segment; the overview for the overview node and the three groups;
/// the layout map for its node; the disassembly for a symbol. A section's
/// body is shown in the disassembly when it has bytes in the file and is
/// executable, as a hexdump when it has bytes and is not, and as
/// information when it has none. Nothing changes without a selected node.
pub proof fn lemma_panel_for_node(a: AppView, b: AppView)
    requires
        view_updated(a, b),
    ensures
        match a.tree.selected_node {
            None => b == a,
            Some(TreeNodeType::ElfHeader) => b.current_view == DetailView::StructuredInfo,
            Some(TreeNodeType::ProgramHeaders) => b.current_view == DetailView::StructuredInfo,
            Some(TreeNodeType::SectionHeaders) => b.current_view == DetailView::StructuredInfo,
            Some(TreeNodeType::SectionHeader { .. }) => b.current_view == DetailView::StructuredInfo,
            Some(TreeNodeType::Segment { .. }) => b.current_view == DetailView::StructuredInfo,
            Some(TreeNodeType::Overview) => b.current_view == DetailView::Overview,
            Some(TreeNodeType::SectionsGroup) => b.current_view == DetailView::Overview,
            Some(TreeNodeType::SegmentsGroup) => b.current_view == DetailView::Overview,
            Some(TreeNodeType::SymbolsGroup) => b.current_view == DetailView::Overview,
            Some(TreeNodeType::LayoutMap) => b.current_view == DetailView::LayoutMap,
            Some(TreeNodeType::Symbol { .. }) => b.current_view == DetailView::Disassembly,
            Some(TreeNodeType::SectionBody { index }) => {
                let s = a.data.sections[index as int];
                b.current_view == if s.size == 0 || s.offset == 0 {
                    DetailView::StructuredInfo
                } else if s.flags.contains('X') {
                    DetailView::Disassembly
                } else {
                    DetailView::Hexdump
                }
            },
        },
{
    reveal(view_updated);
}

/// The view modes a section offers: information always; for a section with
/// bytes in the file also the hexdump, then disassembly when it is
/// executable, strings when its name holds "str", and the dynamic table
/// when it is `.dynamic`.
pub open spec fn modes_of(s: SectionView) -> Seq<SectionViewMode> {
    seq![SectionViewMode::Info] + if shown_section(s) {
        seq![SectionViewMode::Hexdump] + (if s.flags.contains('X') {
            seq![SectionViewMode::Disassembly]
        } else {
            Seq::empty()
        }) + (if has_substring(s.name, "str"@) {
            seq![SectionViewMode::Strings]
        } else {
            Seq::empty()
        }) + (if s.name == ".dynamic"@ {
            seq![SectionViewMode::Dynamic]
        } else {
            Seq::empty()
        })
    } else {
        Seq::empty()
    }
}

/// The first position from the `i`-th on that holds `m`, or -1.
pub open spec fn mode_pos(modes: Seq<SectionViewMode>, m: SectionViewMode, i: int) -> int
    decreases modes.len() - i,
{
    if i < 0 || i >= modes.len() {
        -1
    } else if modes[i] == m {
        i
    } else {
        mode_pos(modes, m, i + 1)
    }
}

/// `b` is `a` after showing section `index` in `mode`. Disassembly loads the
/// section's disassembly first when it is executable and not the one
/// loaded; information and the dynamic table show the information panel.
pub open spec fn section_switched(a: AppView, index: usize, mode: SectionViewMode, b: AppView) -> bool {
    match mode {
        SectionViewMode::Hexdump => b == AppView { current_view: DetailView::Hexdump, ..a },
        SectionViewMode::Disassembly => {
            let a1 = AppView { current_view: DetailView::Disassembly, ..a };
            if a.current_disasm_section != Some(index) && a.data.sections[index as int].flags.contains('X') {
                disasm_loaded(a1, index, b)
            } else {
                b == a1
            }
        },
        SectionViewMode::Strings => b == AppView { current_view: DetailView::Strings, ..a },
        SectionViewMode::Dynamic => b == AppView { current_view: DetailView::StructuredInfo, ..a },
        SectionViewMode::Info => b == AppView { current_view: DetailView::StructuredInfo, ..a },
    }
}

/// `b` is `a` after moving a selected section on to its next view mode,
/// wrapping round; nothing changes unless a section is selected and its
/// current mode is one it offers.
#[verifier::opaque]
pub open spec fn view_cycled(a: AppView, b: AppView) -> bool {
    match a.tree.selected_node {
        Some(TreeNodeType::SectionBody { index }) => {
            let modes = modes_of(a.data.sections[index as int]);
            match a.section_view_mode {
                Some(cur) => {
                    let p = mode_pos(modes, cur, 0);
                    if p >= 0 {
                        let next = modes[(p + 1) % (modes.len() as int)];
                        section_switched(AppView { section_view_mode: Some(next), ..a }, index, next, b)
                    } else {
                        b == a
                    }
                },
                None => b == a,
            }
        },
        _ => b == a,
    }
}

/// `b` is `a` after choosing the highlighted row of the layout map, whose
/// regions are `regs`: a region that leads to a structure selects it in the
/// tree (remembering the map to come back to) and shows it; other rows
/// change nothing.
pub open spec fn layout_entered(a: AppView, regs: Seq<RegionView>, b: AppView) -> bool {
    let row = a.layout_map.selected_row as int;
    if row < regs.len() && regs[row].target is Some {
        let a1 = AppView {
            prev_view: Some(DetailView::LayoutMap),
            prev_node: Some(TreeNodeType::LayoutMap),
            ..a
        };
        match regs[row].target->0 {
            LayoutTarget::ElfHeader => b == AppView {
                tree: node_selected(a1.tree, TreeNodeType::ElfHeader),
                current_view: DetailView::StructuredInfo,
                ..a1
            },
            LayoutTarget::ProgramHeaders => b == AppView {
                tree: node_selected(a1.tree, TreeNodeType::ProgramHeaders),
                current_view: DetailView::StructuredInfo,
                ..a1
            },
            LayoutTarget::SectionHeaders => b == AppView {
                tree: node_selected(a1.tree, TreeNodeType::SectionHeaders),
                current_view: DetailView::StructuredInfo,
                ..a1
            },
            LayoutTarget::SectionBody(index) => view_updated(
                AppView { tree: node_selected(a1.tree, TreeNodeType::SectionBody { index }), ..a1 },
                b,
            ),
        }
    } else {
        b == a
    }
}

/// `b` is `a` after choosing the highlighted row of the file's layout map.
#[verifier::opaque]
pub open spec fn layout_map_entered(a: AppView, b: AppView) -> bool {
    exists|regs: Seq<RegionView>| #[trigger] layout_of(a.data, regs) && layout_entered(a, regs, b)
}

/// The section whose body is selected, if any.
pub open spec fn hex_section_index(a: AppView) -> Option<usize> {
    match a.tree.selected_node {
        Some(TreeNodeType::SectionBody { index }) => Some(index),
        _ => None,
    }
}

impl App {
    /// Where the shown panel is (see `position_of`).
    pub fn position(&self) -> (r: usize)
        ensures
            r == position_of(self@),
    {
        match self.current_view {
            DetailView::Overview => self.overview.selected_line,
            DetailView::StructuredInfo => self.info.selected_line,
            DetailView::Strings => self.strings.selected_line,
            DetailView::LayoutMap => self.layout_map.scroll,
            DetailView::Hexdump => self.hexdump.scroll,
            DetailView::Disassembly => self.disasm.scroll,
        }
    }

    /// Moves the shown panel to `v` (see `position_of`).
    pub fn set_position(&mut self, v: usize)
        ensures
            final(self)@ == with_position(old(self)@, v),
            app_ok(old(self)@) ==> app_ok(final(self)@),
    {
        proof {
            reveal(with_position);
        }
        match self.current_view {
            DetailView::Overview => self.overview.selected_line = v,
            DetailView::StructuredInfo => self.info.selected_line = v,
            DetailView::Strings => self.strings.selected_line = v,
            DetailView::LayoutMap => self.layout_map.scroll = v,
            DetailView::Hexdump => self.hexdump.scroll = v,
            DetailView::Disassembly => self.disasm.scroll = v,
        }
    }

    /// Moves the shown panel `n` lines up, stopping at the top.
    pub fn scroll_up(&mut self, n: usize)
        ensures
            final(self)@ == scrolled_up(old(self)@, n),
            app_ok(old(self)@) ==> app_ok(final(self)@),
    {
        let p = self.position();
        self.set_position(p.saturating_sub(n));
    }

    /// Moves the shown panel `n` lines down.
    pub fn scroll_down(&mut self, n: usize)
        requires
            down_fits(old(self)@, n),
        ensures
            final(self)@ == scrolled_down(old(self)@, n),
            app_ok(old(self)@) ==> app_ok(final(self)@),
    {
        let p = self.position();
        self.set_position(p + n);
    }

    /// Moves the shown panel to its top.
    pub fn scroll_top(&mut self)
        ensures
            final(self)@ == with_position(old(self)@, 0),
            app_ok(old(self)@) ==> app_ok(final(self)@),
    {
        self.set_position(0);
    }

    /// Moves the shown panel to its bottom (the panel clamps it when drawn).
    pub fn scroll_bottom(&mut self)
        ensures
            final(self)@ == with_position(old(self)@, usize::MAX),
            app_ok(old(self)@) ==> app_ok(final(self)@),
    {
        self.set_position(usize::MAX);
    }

    /// The section whose body is selected, if any.
    pub fn get_hex_section(&self) -> (r: Option<&SectionInfo>)
        requires
            app_ok(self@),
        ensures
            match hex_section_index(self@) {
                Some(i) => r matches Some(s) && s@ == self@.data.sections[i as int],
                None => r is None,
            },
    {
        proof {
            lemma_selected_ok(self@);
        }
        match self.tree.selected_node {
            Some(TreeNodeType::SectionBody { index }) => Some(&self.data.sections[index]),
            _ => None,
        }
    }

    /// Loads the disassembly of section `index`.
    fn load_disasm(&mut self, index: usize)
        requires
            data_ok(old(self)@.data),
            index < old(self)@.data.sections.len(),
            old(self)@.data.sections[index as int].flags.contains('X'),
        ensures
            disasm_loaded(old(self)@, index, final(self)@),
    {
        assert(crate::app::addressable(self@.data.sections[index as int]));
        assert(self@.data.sections[index as int].addr + self@.data.sections[index as int].data.len()
            <= u64::MAX);
        let d = disassemble_named(&self.data.sections[index], &self.data.symbols);
        self.disasm_cache = Some(d);
        self.current_disasm_section = Some(index);
        self.disasm.selected_function = 0;
        self.disasm.scroll = 0;
    }

    /// Shows the panel for the selected node (see `view_updated`).
    pub fn update_view(&mut self)
        requires
            app_ok(old(self)@),
        ensures
            view_updated(old(self)@, final(self)@),
            app_ok(final(self)@),
    {
        proof {
            reveal(view_updated);
        }
        proof {
            lemma_selected_ok(self@);
        }
        match self.tree.selected_node {
            Some(TreeNodeType::SectionBody { index }) => {
                let shown = self.data.sections[index].size != 0 && self.data.sections[index].offset != 0;
                if !shown {
                    self.section_view_mode = Some(SectionViewMode::Info);
                    self.current_view = DetailView::StructuredInfo;
                } else {
                    let exec = str_contains_char(self.data.sections[index].flags.as_str(), 'X');
                    if exec {
                        self.section_view_mode = Some(SectionViewMode::Disassembly);
                        self.current_view = DetailView::Disassembly;
                        let loaded = match self.current_disasm_section {
                            Some(k) => k == index,
                            None => false,
                        };
                        if !loaded {
                            self.load_disasm(index);
                        }
                    } else {
                        self.section_view_mode = Some(SectionViewMode::Hexdump);
                        self.current_view = DetailView::Hexdump;
                    }
                }
            },
            Some(t) => {
                self.current_view = match t {
                    TreeNodeType::Overview => DetailView::Overview,
                    TreeNodeType::LayoutMap => DetailView::LayoutMap,
                    TreeNodeType::ElfHeader => DetailView::StructuredInfo,
                    TreeNodeType::ProgramHeaders => DetailView::StructuredInfo,
                    TreeNodeType::SectionHeaders => DetailView::StructuredInfo,
                    TreeNodeType::SectionsGroup => DetailView::Overview,
                    TreeNodeType::SectionHeader { .. } => DetailView::StructuredInfo,
                    TreeNodeType::SectionBody { .. } => DetailView::Hexdump,
                    TreeNodeType::SegmentsGroup => DetailView::Overview,
                    TreeNodeType::Segment { .. } => DetailView::StructuredInfo,
                    TreeNodeType::SymbolsGroup => DetailView::Overview,
                    TreeNodeType::Symbol { .. } => DetailView::Disassembly,
                };
            },
            None => {},
        }
    }
}

/// The view modes that `section` offers (see `modes_of`).
pub fn available_modes(section: &SectionInfo) -> (r: Vec<SectionViewMode>)
    ensures
        r@ == modes_of(section@),
{
    proof {
        reveal_strlit("str");
        reveal_strlit(".dynamic");
    }
    let mut modes: Vec<SectionViewMode> = Vec::new();
    modes.push(SectionViewMode::Info);
    if section.size > 0 && section.offset > 0 {
        modes.push(SectionViewMode::Hexdump);
        if str_contains_char(section.flags.as_str(), 'X') {
            modes.push(SectionViewMode::Disassembly);
        }
        if str_contains(section.name.as_str(), "str") {
            modes.push(SectionViewMode::Strings);
        }
        let dynamic = String::from_str(".dynamic");
        if section.name == dynamic {
            modes.push(SectionViewMode::Dynamic);
        }
    }
    assert(modes@ =~= modes_of(section@));
    modes
}

impl App {
    /// Shows section `index` in `mode` (see `section_switched`).
    pub fn switch_section_view(&mut self, index: usize, mode: SectionViewMode)
        requires
            app_ok(old(self)@),
            index < old(self)@.data.sections.len(),
        ensures
            section_switched(old(self)@, index, mode, final(self)@),
            app_ok(final(self)@),
    {
        match mode {
            SectionViewMode::Hexdump => self.current_view = DetailView::Hexdump,
            SectionViewMode::Disassembly => {
                let exec = str_contains_char(self.data.sections[index].flags.as_str(), 'X');
                let loaded = match self.current_disasm_section {
                    Some(k) => k == index,
                    None => false,
                };
                self.current_view = DetailView::Disassembly;
                if !loaded && exec {
                    self.load_disasm(index);
                }
            },
            SectionViewMode::Strings => self.current_view = DetailView::Strings,
            SectionViewMode::Dynamic => self.current_view = DetailView::StructuredInfo,
            SectionViewMode::Info => self.current_view = DetailView::StructuredInfo,
        }
    }

    /// Moves a selected section on to its next view mode (see
    /// `view_cycled`).
    pub fn cycle_section_view(&mut self)
        requires
            app_ok(old(self)@),
        ensures
            view_cycled(old(self)@, final(self)@),
            app_ok(final(self)@),
    {
        proof {
            reveal(view_cycled);
        }
        proof {
            lemma_selected_ok(self@);
        }
        if let Some(TreeNodeType::SectionBody { index }) = self.tree.selected_node {
            let modes = available_modes(&self.data.sections[index]);
            if let Some(cur) = self.section_view_mode {
                let mut p: usize = 0;
                while p < modes.len() && modes[p] != cur
                    invariant
                        p <= modes@.len(),
                        mode_pos(modes@, cur, 0) == mode_pos(modes@, cur, p as int),
                    decreases modes@.len() - p,
                {
                    p = p + 1;
                }
                if p < modes.len() {
                    let next = modes[(p + 1) % modes.len()];
                    self.section_view_mode = Some(next);
                    self.switch_section_view(index, next);
                }
            }
        }
    }

    /// Follows the highlighted row of the layout map to its structure (see
    /// `layout_entered`).
    pub fn layout_map_enter(&mut self)
        requires
            app_ok(old(self)@),
        ensures
            layout_map_entered(old(self)@, final(self)@),
            app_ok(final(self)@),
    {
        proof {
            reveal(layout_map_entered);
        }
        let regions = build_regions(&self.data);
        let ghost regs = regions_view(regions@);
        let row = self.layout_map.selected_row;
        if row < regions.len() {
            assert(regs[row as int] == regions@[row as int]@);
            if let Some(target) = regions[row].target {
                self.prev_view = Some(DetailView::LayoutMap);
                self.prev_node = Some(TreeNodeType::LayoutMap);
                match target {
                    LayoutTarget::ElfHeader => {
                        self.tree.select_node(&TreeNodeType::ElfHeader);
                        self.current_view = DetailView::StructuredInfo;
                    },
                    LayoutTarget::ProgramHeaders => {
                        self.tree.select_node(&TreeNodeType::ProgramHeaders);
                        self.current_view = DetailView::StructuredInfo;
                    },
                    LayoutTarget::SectionHeaders => {
                        self.tree.select_node(&TreeNodeType::SectionHeaders);
                        self.current_view = DetailView::StructuredInfo;
                    },
                    LayoutTarget::SectionBody(index) => {
                        self.tree.select_node(&TreeNodeType::SectionBody { index });
                        self.update_view();
                    },
                }
            }
        }
        assert(layout_of(old(self)@.data, regs) && layout_entered(old(self)@, regs, self@));
    }
}


/// Law: moving the shown panel `n` lines down and then `n` lines up
/// returns to where it was, when moving down stayed within `usize`.
pub proof fn lemma_scroll_round_trip(a: AppView, n: usize)
    requires
        down_fits(a, n),
    ensures
        scrolled_up(scrolled_down(a, n), n) == a,
        scrolled_down(a, n).pending_g == a.pending_g,
        scrolled_down(a, n).show_help == a.show_help,
        scrolled_down(a, n).search == a.search,
        scrolled_down(a, n).focus == a.focus,
{
    reveal(with_position);
    let b = scrolled_down(a, n);
    assert(position_of(b) == position_of(a) + n);
    assert(b.current_view == a.current_view);
}

} // verus!
