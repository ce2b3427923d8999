//! The viewer's application state and the decisions it takes on each key:
//! the navigation tree it starts from, the panel shown, focus, scrolling and
//! the section view modes.

use vstd::prelude::*;

pub mod keys;
pub mod navigate;

use crate::elf::disasm::{DisasmResult, DisasmView};
use crate::elf::parser::{ElfData, ElfDataView, SectionView, SegmentView, SymbolType, SymbolView};
use crate::text::{dec_seq, hex_seq, push_dec, push_hex, str_contains_char};
use crate::ui::disasm::DisasmState;
use crate::ui::hexdump::{HexCursor, HexdumpState, HexdumpView};
use crate::ui::info::InfoState;
use crate::ui::layout_map::{layout_fits, LayoutMapState};
use crate::ui::overview::OverviewState;
use crate::ui::search::{fresh_search, SearchState, SearchView};
use crate::ui::strings::StringsState;
use crate::ui::tree::{
    cursor_row, depth_ok_from, has_key, key_in_from, keys_apart, flat_indices, lemma_depth_ok_all, lemma_nodes_view, node_depth_ok,
    nodes_view, row_type, rows, rows_from, TreeNode, TreeNodeType, TreeNodeView, TreeState,
    TreeStateView,
};

verus! {

/// The panel shown on the right.
#[derive(Debug, Clone, Copy, PartialEq, Eq, Structural)]
pub enum DetailView {
    Overview,
    LayoutMap,
    StructuredInfo,
    Hexdump,
    Disassembly,
    Strings,
}

/// How a section's contents are shown.
#[derive(Debug, Clone, Copy, PartialEq, Eq, Structural)]
pub enum SectionViewMode {
    Hexdump,
    Disassembly,
    Strings,
    Dynamic,
    Info,
}

/// Which half of the disassembly panel has the keys.
#[derive(Debug, Clone, Copy, PartialEq, Eq, Structural)]
pub enum DisasmSubFocus {
    FuncList,
    Instructions,
}

/// Which part of the screen has the keys.
#[derive(Debug, Clone, Copy, PartialEq, Eq, Structural)]
pub enum Focus {
    Tree,
    Detail,
    Search,
}

/// `name (0xFROM-0xTO)`.
pub open spec fn span_label(name: Seq<char>, from: nat, to: nat) -> Seq<char> {
    name + " (0x"@ + hex_seq(from) + "-0x"@ + hex_seq(to) + ")"@
}

/// `name (N)`.
pub open spec fn count_label(name: Seq<char>, n: nat) -> Seq<char> {
    name + " ("@ + dec_seq(n) + ")"@
}

/// `[N] text`.
pub open spec fn numbered(n: nat, text: Seq<char>) -> Seq<char> {
    "["@ + dec_seq(n) + "] "@ + text
}

/// An expanded node without children.
pub open spec fn leaf(label: Seq<char>, node_type: TreeNodeType, depth: u8) -> TreeNodeView {
    TreeNodeView { label, node_type, depth, children: Seq::empty(), expanded: true }
}

/// An expanded top-level node with the given children.
pub open spec fn group(label: Seq<char>, node_type: TreeNodeType, children: Seq<TreeNodeView>) -> TreeNodeView {
    TreeNodeView { label, node_type, depth: 0, children, expanded: true }
}

/// The tree node of a section: its number and name, and its byte range when
/// it has a size and a file offset.
pub open spec fn section_node(s: SectionView) -> TreeNodeView {
    let head = numbered(s.index as nat, s.name);
    leaf(
        if s.size > 0 && s.offset > 0 {
            span_label(head, s.offset as nat, (s.offset + s.size) as nat)
        } else {
            head
        },
        TreeNodeType::SectionBody { index: s.index },
        1,
    )
}

/// The tree node of a segment: its number, type and address range.
pub open spec fn segment_node(g: SegmentView) -> TreeNodeView {
    leaf(
        span_label(numbered(g.index as nat, g.ty), g.vaddr as nat, (g.vaddr + g.memsz) as nat),
        TreeNodeType::Segment { index: g.index },
        1,
    )
}

/// The tag shown before a symbol's name.
pub open spec fn symbol_tag(t: SymbolType) -> Seq<char> {
    match t {
        SymbolType::Function => "[F]"@,
        SymbolType::Object => "[O]"@,
        _ => "[?]"@,
    }
}

/// The tree node of the `i`-th symbol.
pub open spec fn symbol_node(sym: SymbolView, i: int) -> TreeNodeView {
    leaf(symbol_tag(sym.ty) + " "@ + sym.name, TreeNodeType::Symbol { index: i as usize }, 1)
}

/// The navigation tree of a file: the overview, the layout map, the header
/// and its two tables, then the sections, segments and symbols, each group
/// with one child per entry. Every node starts expanded.
pub open spec fn tree_of(d: ElfDataView) -> Seq<TreeNodeView> {
    seq![
        leaf("Overview"@, TreeNodeType::Overview, 0),
        leaf("Layout Map"@, TreeNodeType::LayoutMap, 0),
        leaf("ELF Header"@, TreeNodeType::ElfHeader, 0),
        leaf(
            span_label("Program Headers"@, d.phoff as nat, (d.phoff + d.phnum * d.phentsize) as nat),
            TreeNodeType::ProgramHeaders,
            0,
        ),
        leaf(
            span_label("Section Headers"@, d.shoff as nat, (d.shoff + d.shnum * d.shentsize) as nat),
            TreeNodeType::SectionHeaders,
            0,
        ),
        group(
            count_label("Sections"@, d.sections.len()),
            TreeNodeType::SectionsGroup,
            Seq::new(d.sections.len(), |i: int| section_node(d.sections[i])),
        ),
        group(
            count_label("Segments"@, d.segments.len()),
            TreeNodeType::SegmentsGroup,
            Seq::new(d.segments.len(), |i: int| segment_node(d.segments[i])),
        ),
        group(
            count_label("Symbols"@, d.symbols.len()),
            TreeNodeType::SymbolsGroup,
            Seq::new(d.symbols.len(), |i: int| symbol_node(d.symbols[i], i)),
        ),
    ]
}

/// The keys of the viewer's tree, on a file whose sections and segments are
/// numbered by their position, are apart, as the law
/// `lemma_tree_toggle_twice` asks.
pub proof fn lemma_tree_of_shape(d: ElfDataView)
    requires
        forall|i: int| 0 <= i < d.sections.len() ==> #[trigger] d.sections[i].index == i,
        forall|i: int| 0 <= i < d.segments.len() ==> #[trigger] d.segments[i].index == i,
        d.symbols.len() <= usize::MAX,
    ensures
        keys_apart(tree_of(d)),
{
    let t = tree_of(d);
    assert(t.len() == 8);
    assert forall|a: int, b: int| 0 <= a < b < t.len() implies !has_key(#[trigger] t[b], (#[trigger] t[a]).node_type, t[a].label) by {
    }
    assert forall|a: int, b: int, c: int| 0 <= a < t.len() && 0 <= b < t.len() && 0 <= c < t[b].children.len()
        implies !has_key(#[trigger] t[b].children[c], (#[trigger] t[a]).node_type, t[a].label) by {
        assert(b == 5 || b == 6 || b == 7);
    }
    assert forall|a: int, c: int, b: int, e: int|
        0 <= a < t.len() && 0 <= c < t[a].children.len() && 0 <= b < t.len() && 0 <= e < t[b].children.len() && (a != b
            || c != e) implies !has_key(
        #[trigger] t[b].children[e],
        (#[trigger] t[a].children[c]).node_type,
        t[a].children[c].label,
    ) by {
        assert(a == 5 || a == 6 || a == 7);
        assert(b == 5 || b == 6 || b == 7);
        let x = t[a].children[c];
        let y = t[b].children[e];
        if a == 5 {
            assert(x == section_node(d.sections[c]));
            assert(x.node_type == TreeNodeType::SectionBody { index: d.sections[c].index });
        } else if a == 6 {
            assert(x == segment_node(d.segments[c]));
        } else {
            assert(x == symbol_node(d.symbols[c], c));
        }
        if b == 5 {
            assert(y == section_node(d.sections[e]));
            assert(y.node_type == TreeNodeType::SectionBody { index: d.sections[e].index });
        } else if b == 6 {
            assert(y == segment_node(d.segments[e]));
        } else {
            assert(y == symbol_node(d.symbols[e], e));
        }
        if a == b {
            assert(c != e);
            assert(x.node_type != y.node_type);
            if a == 5 {
                assert(d.sections[c].index == c && d.sections[e].index == e);
            } else if a == 6 {
                assert(d.segments[c].index == c && d.segments[e].index == e);
            }
        }
    }
    assert forall|a: int, b: int, c: int| 0 <= a < t.len() && 0 <= b < t.len() && 0 <= c < t[b].children.len()
        implies !key_in_from(#[trigger] t[b].children[c].children, 0, (#[trigger] t[a]).node_type, t[a].label) by {
        assert(t[b].children[c].children.len() == 0);
    }
    assert forall|a: int, c: int, b: int, e: int|
        0 <= a < t.len() && 0 <= c < t[a].children.len() && 0 <= b < t.len() && 0 <= e < t[b].children.len()
        implies !key_in_from(
        #[trigger] t[b].children[e].children,
        0,
        (#[trigger] t[a].children[c]).node_type,
        t[a].children[c].label,
    ) by {
        assert(t[b].children[e].children.len() == 0);
    }
}

/// The labels of the navigation tree can be written: the header tables'
/// and the sections' byte ranges, and the segments' address ranges, end
/// within 64 bits.
pub open spec fn tree_fits(d: ElfDataView) -> bool {
    &&& layout_fits(d)
    &&& forall|i: int|
        0 <= i < d.segments.len() ==> #[trigger] d.segments[i].vaddr + d.segments[i].memsz
            <= u64::MAX
}

fn span_label_string(name: &str, from: u64, to: u64) -> (r: String)
    ensures
        r@ == span_label(name@, from as nat, to as nat),
{
    proof {
        reveal_strlit(" (0x");
        reveal_strlit("-0x");
        reveal_strlit(")");
    }
    let mut r = String::from_str(name);
    r.append(" (0x");
    push_hex(&mut r, from);
    r.append("-0x");
    push_hex(&mut r, to);
    r.append(")");
    assert(r@ =~= span_label(name@, from as nat, to as nat));
    r
}

fn count_label_string(name: &str, n: usize) -> (r: String)
    ensures
        r@ == count_label(name@, n as nat),
{
    proof {
        reveal_strlit(" (");
        reveal_strlit(")");
    }
    let mut r = String::from_str(name);
    r.append(" (");
    push_dec(&mut r, n as u64);
    r.append(")");
    assert(r@ =~= count_label(name@, n as nat));
    r
}

fn numbered_string(n: usize, text: &str) -> (r: String)
    ensures
        r@ == numbered(n as nat, text@),
{
    proof {
        reveal_strlit("[");
        reveal_strlit("] ");
    }
    let mut r = String::from_str("[");
    push_dec(&mut r, n as u64);
    r.append("] ");
    r.append(text);
    assert(r@ =~= numbered(n as nat, text@));
    r
}

fn leaf_node(label: String, node_type: TreeNodeType, depth: u8) -> (r: TreeNode)
    ensures
        crate::ui::tree::node_view(r) == leaf(label@, node_type, depth),
{
    let r = TreeNode { label, node_type, depth, children: Vec::new(), expanded: true };
    assert(nodes_view(r.children@) =~= Seq::<TreeNodeView>::empty());
    r
}

proof fn lemma_nodes_view_push(s: Seq<TreeNode>, x: TreeNode)
    ensures
        nodes_view(s.push(x)) == nodes_view(s).push(crate::ui::tree::node_view(x)),
{
    assert(s.push(x).drop_last() =~= s);
}

fn section_children(data: &ElfData) -> (r: Vec<TreeNode>)
    requires
        tree_fits(data@),
    ensures
        nodes_view(r@) == Seq::new(data@.sections.len(), |i: int| section_node(data@.sections[i])),
{
    let ghost secs = data@.sections;
    let mut r: Vec<TreeNode> = Vec::new();
    let mut i: usize = 0;
    while i < data.sections.len()
        invariant
            secs == data@.sections,
            tree_fits(data@),
            i <= data.sections.len(),
            nodes_view(r@) == Seq::new(i as nat, |k: int| section_node(secs[k])),
        decreases data.sections.len() - i,
    {
        let s = &data.sections[i];
        assert(secs[i as int] == s@);
        let head = numbered_string(s.index, s.name.as_str());
        let label = if s.size > 0 && s.offset > 0 {
            assert(secs[i as int].offset + secs[i as int].size <= u64::MAX);
            span_label_string(head.as_str(), s.offset, s.offset + s.size)
        } else {
            head
        };
        let node = leaf_node(label, TreeNodeType::SectionBody { index: s.index }, 1);
        proof {
            lemma_nodes_view_push(r@, node);
        }
        r.push(node);
        i = i + 1;
        assert(nodes_view(r@) =~= Seq::new(i as nat, |k: int| section_node(secs[k])));
    }
    r
}

fn segment_children(data: &ElfData) -> (r: Vec<TreeNode>)
    requires
        tree_fits(data@),
    ensures
        nodes_view(r@) == Seq::new(data@.segments.len(), |i: int| segment_node(data@.segments[i])),
{
    let ghost segs = data@.segments;
    let mut r: Vec<TreeNode> = Vec::new();
    let mut i: usize = 0;
    while i < data.segments.len()
        invariant
            segs == data@.segments,
            tree_fits(data@),
            i <= data.segments.len(),
            nodes_view(r@) == Seq::new(i as nat, |k: int| segment_node(segs[k])),
        decreases data.segments.len() - i,
    {
        let g = &data.segments[i];
        assert(segs[i as int] == g@);
        assert(segs[i as int].vaddr + segs[i as int].memsz <= u64::MAX);
        let head = numbered_string(g.index, g.ty.as_str());
        let label = span_label_string(head.as_str(), g.vaddr, g.vaddr + g.memsz);
        let node = leaf_node(label, TreeNodeType::Segment { index: g.index }, 1);
        proof {
            lemma_nodes_view_push(r@, node);
        }
        r.push(node);
        i = i + 1;
        assert(nodes_view(r@) =~= Seq::new(i as nat, |k: int| segment_node(segs[k])));
    }
    r
}

fn symbol_children(data: &ElfData) -> (r: Vec<TreeNode>)
    ensures
        nodes_view(r@) == Seq::new(data@.symbols.len(), |i: int| symbol_node(data@.symbols[i], i)),
{
    proof {
        reveal_strlit("[F]");
        reveal_strlit("[O]");
        reveal_strlit("[?]");
        reveal_strlit(" ");
    }
    let ghost syms = data@.symbols;
    let mut r: Vec<TreeNode> = Vec::new();
    let mut i: usize = 0;
    while i < data.symbols.len()
        invariant
            syms == data@.symbols,
            i <= data.symbols.len(),
            nodes_view(r@) == Seq::new(i as nat, |k: int| symbol_node(syms[k], k)),
        decreases data.symbols.len() - i,
    {
        let sym = &data.symbols[i];
        assert(syms[i as int] == sym@);
        let mut label = match sym.ty {
            SymbolType::Function => String::from_str("[F]"),
            SymbolType::Object => String::from_str("[O]"),
            _ => String::from_str("[?]"),
        };
        label.append(" ");
        label.append(sym.name.as_str());
        assert(label@ =~= symbol_tag(sym@.ty) + " "@ + sym@.name);
        let node = leaf_node(label, TreeNodeType::Symbol { index: i }, 1);
        proof {
            lemma_nodes_view_push(r@, node);
        }
        r.push(node);
        i = i + 1;
        assert(nodes_view(r@) =~= Seq::new(i as nat, |k: int| symbol_node(syms[k], k)));
    }
    r
}

fn group_node(label: String, node_type: TreeNodeType, children: Vec<TreeNode>) -> (r: TreeNode)
    ensures
        crate::ui::tree::node_view(r) == group(label@, node_type, nodes_view(children@)),
{
    TreeNode { label, node_type, depth: 0, children, expanded: true }
}

proof fn lemma_leaves_depth_ok(children: Seq<TreeNodeView>)
    requires
        forall|m: int| 0 <= m < children.len() ==> (#[trigger] children[m]).children.len() == 0,
    ensures
        depth_ok_from(children, 0, 1),
{
    lemma_depth_ok_all(children, 0, 1);
    assert forall|m: int| 0 <= m < children.len() implies node_depth_ok(#[trigger] children[m], 1) by {
    }
}

/// The navigation tree nests two levels deep, well within what a row can
/// count.
pub proof fn lemma_tree_depth_ok(d: ElfDataView)
    ensures
        depth_ok_from(tree_of(d), 0, 0),
{
    let t = tree_of(d);
    lemma_depth_ok_all(t, 0, 0);
    assert forall|k: int| 0 <= k < t.len() implies node_depth_ok(#[trigger] t[k], 0) by {
        lemma_leaves_depth_ok(t[k].children);
    }
}

/// Builds the navigation tree of a file.
pub fn build_tree(data: &ElfData) -> (r: Vec<TreeNode>)
    requires
        tree_fits(data@),
    ensures
        nodes_view(r@) == tree_of(data@),
{
    proof {
        reveal_strlit("Overview");
        reveal_strlit("Layout Map");
        reveal_strlit("ELF Header");
        reveal_strlit("Program Headers");
        reveal_strlit("Section Headers");
        reveal_strlit("Sections");
        reveal_strlit("Segments");
        reveal_strlit("Symbols");
    }
    let mut nodes: Vec<TreeNode> = Vec::new();
    nodes.push(leaf_node(String::from_str("Overview"), TreeNodeType::Overview, 0));
    nodes.push(leaf_node(String::from_str("Layout Map"), TreeNodeType::LayoutMap, 0));
    nodes.push(leaf_node(String::from_str("ELF Header"), TreeNodeType::ElfHeader, 0));
    let ph_end = data.phoff + data.phnum as u64 * data.phentsize as u64;
    nodes.push(
        leaf_node(
            span_label_string("Program Headers", data.phoff, ph_end),
            TreeNodeType::ProgramHeaders,
            0,
        ),
    );
    let sh_end = data.shoff + data.shnum as u64 * data.shentsize as u64;
    nodes.push(
        leaf_node(
            span_label_string("Section Headers", data.shoff, sh_end),
            TreeNodeType::SectionHeaders,
            0,
        ),
    );
    nodes.push(
        group_node(
            count_label_string("Sections", data.sections.len()),
            TreeNodeType::SectionsGroup,
            section_children(data),
        ),
    );
    nodes.push(
        group_node(
            count_label_string("Segments", data.segments.len()),
            TreeNodeType::SegmentsGroup,
            segment_children(data),
        ),
    );
    nodes.push(
        group_node(
            count_label_string("Symbols", data.symbols.len()),
            TreeNodeType::SymbolsGroup,
            symbol_children(data),
        ),
    );
    proof {
        lemma_nodes_view(nodes@);
        assert(nodes_view(nodes@) =~= tree_of(data@));
    }
    nodes
}


/// The whole state of the viewer.
#[derive(Debug)]
pub struct App {
    pub data: ElfData,
    pub tree: TreeState,
    pub overview: OverviewState,
    pub layout_map: LayoutMapState,
    pub info: InfoState,
    pub hexdump: HexdumpState,
    pub disasm: DisasmState,
    pub strings: StringsState,
    pub search: SearchState,
    pub current_view: DetailView,
    pub focus: Focus,
    pub should_quit: bool,
    pub show_help: bool,
    pub pending_g: bool,
    pub disasm_cache: Option<DisasmResult>,
    pub current_disasm_section: Option<usize>,
    pub prev_view: Option<DetailView>,
    pub prev_node: Option<TreeNodeType>,
    pub disasm_subfocus: DisasmSubFocus,
    pub section_view_mode: Option<SectionViewMode>,
}

/// The abstract value of an `App`.
pub struct AppView {
    pub data: ElfDataView,
    pub tree: TreeStateView,
    pub overview: OverviewState,
    pub layout_map: LayoutMapState,
    pub info: InfoState,
    pub hexdump: HexdumpView,
    pub disasm: DisasmState,
    pub strings: StringsState,
    pub search: SearchView,
    pub current_view: DetailView,
    pub focus: Focus,
    pub should_quit: bool,
    pub show_help: bool,
    pub pending_g: bool,
    pub disasm_cache: Option<DisasmView>,
    pub current_disasm_section: Option<usize>,
    pub prev_view: Option<DetailView>,
    pub prev_node: Option<TreeNodeType>,
    pub disasm_subfocus: DisasmSubFocus,
    pub section_view_mode: Option<SectionViewMode>,
}

/// The abstract value of an optional disassembly.
pub open spec fn opt_disasm_view(o: Option<DisasmResult>) -> Option<DisasmView> {
    match o {
        Some(d) => Some(d@),
        None => None,
    }
}

impl View for App {
    type V = AppView;

    open spec fn view(&self) -> AppView {
        AppView {
            data: self.data@,
            tree: self.tree@,
            overview: self.overview,
            layout_map: self.layout_map,
            info: self.info,
            hexdump: self.hexdump@,
            disasm: self.disasm,
            strings: self.strings,
            search: self.search@,
            current_view: self.current_view,
            focus: self.focus,
            should_quit: self.should_quit,
            show_help: self.show_help,
            pending_g: self.pending_g,
            disasm_cache: opt_disasm_view(self.disasm_cache),
            current_disasm_section: self.current_disasm_section,
            prev_view: self.prev_view,
            prev_node: self.prev_node,
            disasm_subfocus: self.disasm_subfocus,
            section_view_mode: self.section_view_mode,
        }
    }
}

/// An executable section's bytes end at an address within 64 bits, so that
/// its instructions, which the viewer decodes when the section is chosen,
/// can be addressed.
pub open spec fn addressable(s: SectionView) -> bool {
    s.flags.contains('X') ==> s.addr + s.data.len() <= u64::MAX
}

/// What the viewer needs of a file beyond what the ELF reader gives: its
/// tree labels can be written, sections and segments are numbered by their
/// position, and each executable section is addressable.
pub open spec fn data_ok(d: ElfDataView) -> bool {
    &&& tree_fits(d)
    &&& forall|i: int| 0 <= i < d.sections.len() ==> #[trigger] d.sections[i].index == i
    &&& forall|i: int| 0 <= i < d.segments.len() ==> #[trigger] d.segments[i].index == i
    &&& forall|i: int| 0 <= i < d.sections.len() ==> addressable(#[trigger] d.sections[i])
}

/// A node type that refers to an entry of the file refers to one that is
/// there.
pub open spec fn type_ok(t: TreeNodeType, d: ElfDataView) -> bool {
    match t {
        TreeNodeType::SectionHeader { index } => index < d.sections.len(),
        TreeNodeType::SectionBody { index } => index < d.sections.len(),
        TreeNodeType::Segment { index } => index < d.segments.len(),
        TreeNodeType::Symbol { index } => index < d.symbols.len(),
        _ => true,
    }
}

/// The tree is two levels deep and every node in it refers to an entry of
/// the file that is there.
pub open spec fn tree_types_ok(nodes: Seq<TreeNodeView>, d: ElfDataView) -> bool {
    forall|i: int|
        0 <= i < nodes.len() ==> {
            &&& type_ok(#[trigger] nodes[i].node_type, d)
            &&& forall|j: int|
                0 <= j < nodes[i].children.len() ==> type_ok(#[trigger] nodes[i].children[j].node_type, d)
                    && nodes[i].children[j].children.len() == 0
        }
}

/// The viewer's invariant over its abstract state: the file meets
/// `data_ok`, the tree nests within bounds and refers to entries that are
/// there, the selected node is the one on the highlighted row, and the
/// current match and the chosen function can be counted one further.
pub open spec fn app_ok(a: AppView) -> bool {
    &&& data_ok(a.data)
    &&& depth_ok_from(a.tree.nodes, 0, 0)
    &&& a.tree.selected_node == row_type(a.tree.nodes, cursor_row(a.tree.selected))
    &&& tree_types_ok(a.tree.nodes, a.data)
    &&& a.search.current_result < usize::MAX
    &&& a.disasm.selected_function < usize::MAX
}

/// The state at start-up, on file `d`: the tree built from the file with
/// its first row highlighted, the overview shown, the tree focused, every
/// panel at its start, no search, no disassembly loaded.
pub open spec fn initial(d: ElfDataView) -> AppView {
    AppView {
        data: d,
        tree: TreeStateView {
            nodes: tree_of(d),
            flat_list: flat_indices(tree_of(d)),
            selected: Some(0usize),
            selected_node: row_type(tree_of(d), 0),
        },
        overview: OverviewState { scroll: 0, selected_line: 0 },
        layout_map: LayoutMapState { scroll: 0, selected_row: 0, region_count: 0 },
        info: InfoState { scroll: 0, selected_line: 0 },
        hexdump: HexdumpView {
            scroll: 0,
            cursor_offset: 0,
            cursor_mode: HexCursor::Hex,
            goto_input: Seq::empty(),
            goto_mode: false,
        },
        disasm: DisasmState { selected_function: 0, scroll: 0 },
        strings: StringsState { scroll: 0, selected_line: 0 },
        search: fresh_search(),
        current_view: DetailView::Overview,
        focus: Focus::Tree,
        should_quit: false,
        show_help: false,
        pending_g: false,
        disasm_cache: None,
        current_disasm_section: None,
        prev_view: None,
        prev_node: None,
        disasm_subfocus: DisasmSubFocus::FuncList,
        section_view_mode: None,
    }
}

proof fn lemma_tree_of_types(d: ElfDataView)
    requires
        data_ok(d),
    ensures
        tree_types_ok(tree_of(d), d),
{
    let t = tree_of(d);
    assert forall|i: int| 0 <= i < t.len() implies {
        &&& type_ok(#[trigger] t[i].node_type, d)
        &&& forall|j: int|
            0 <= j < t[i].children.len() ==> type_ok(#[trigger] t[i].children[j].node_type, d)
                && t[i].children[j].children.len() == 0
    } by {
        assert forall|j: int| 0 <= j < t[i].children.len() implies type_ok(#[trigger] t[i].children[j].node_type, d)
            && t[i].children[j].children.len() == 0 by {
            if i == 5 {
                assert(d.sections[j].index == j);
            } else if i == 6 {
                assert(d.segments[j].index == j);
            }
        }
    }
}

impl App {
    /// The viewer's invariant (see `app_ok`).
    pub open spec fn wf(&self) -> bool {
        app_ok(self@)
    }

    /// The viewer at start-up on `data`.
    pub fn new(data: ElfData) -> (r: Self)
        requires
            data_ok(data@),
        ensures
            r@ == initial(data@),
            r.wf(),
    {
        let tree = build_tree(&data);
        proof {
            lemma_tree_depth_ok(data@);
            lemma_tree_of_types(data@);
        }
        App {
            data,
            tree: TreeState::new(tree),
            overview: OverviewState::new(),
            layout_map: LayoutMapState::new(),
            info: InfoState::new(),
            hexdump: HexdumpState::new(),
            disasm: DisasmState::new(),
            strings: StringsState::new(),
            search: SearchState::new(),
            current_view: DetailView::Overview,
            focus: Focus::Tree,
            should_quit: false,
            show_help: false,
            pending_g: false,
            disasm_cache: None,
            current_disasm_section: None,
            prev_view: None,
            prev_node: None,
            disasm_subfocus: DisasmSubFocus::FuncList,
            section_view_mode: None,
        }
    }
}


proof fn lemma_leaf_rows(ch: Seq<TreeNodeView>, j: int, depth: int, d: ElfDataView)
    requires
        0 <= j <= ch.len(),
        forall|m: int| j <= m < ch.len() ==> type_ok(#[trigger] ch[m].node_type, d) && ch[m].children.len() == 0,
    ensures
        forall|k: int| 0 <= k < rows_from(ch, j, depth).len() ==> type_ok(#[trigger] rows_from(ch, j, depth)[k].node_type, d),
    decreases ch.len() - j,
{
    if j < ch.len() {
        lemma_leaf_rows(ch, j + 1, depth, d);
        let rest = rows_from(ch, j + 1, depth);
        assert(rows_from(ch[j].children, 0, depth + 1) =~= Seq::<crate::ui::tree::RowView>::empty());
        let all = rows_from(ch, j, depth);
        assert(all =~= seq![all[0]] + rest);
        assert forall|k: int| 0 <= k < all.len() implies type_ok(#[trigger] all[k].node_type, d) by {
            if k > 0 {
                assert(all[k] == rest[k - 1]);
            }
        }
    }
}

proof fn lemma_top_rows(nodes: Seq<TreeNodeView>, i: int, d: ElfDataView)
    requires
        0 <= i <= nodes.len(),
        tree_types_ok(nodes, d),
    ensures
        forall|k: int| 0 <= k < rows_from(nodes, i, 0).len() ==> type_ok(#[trigger] rows_from(nodes, i, 0)[k].node_type, d),
    decreases nodes.len() - i,
{
    if i < nodes.len() {
        lemma_top_rows(nodes, i + 1, d);
        let n = nodes[i];
        assert(type_ok(nodes[i].node_type, d));
        assert forall|m: int| 0 <= m < n.children.len() implies type_ok(#[trigger] n.children[m].node_type, d)
            && n.children[m].children.len() == 0 by {
            assert(type_ok(nodes[i].children[m].node_type, d));
        }
        lemma_leaf_rows(n.children, 0, 1, d);
        let sub = if n.expanded { rows_from(n.children, 0, 1) } else { Seq::empty() };
        let rest = rows_from(nodes, i + 1, 0);
        let all = rows_from(nodes, i, 0);
        assert(all == seq![all[0]] + sub + rest);
        assert forall|k: int| 0 <= k < all.len() implies type_ok(#[trigger] all[k].node_type, d) by {
            if 0 < k <= sub.len() {
                assert(all[k] == sub[k - 1]);
            } else if k > sub.len() {
                assert(all[k] == rest[k - 1 - sub.len()]);
            }
        }
    }
}

/// In a viewer that meets its invariant, a selected node refers to an entry
/// of the file that is there.
pub proof fn lemma_selected_ok(app: AppView)
    requires
        data_ok(app.data),
        app.tree.selected_node == row_type(app.tree.nodes, cursor_row(app.tree.selected)),
        tree_types_ok(app.tree.nodes, app.data),
    ensures
        app.tree.selected_node matches Some(t) ==> type_ok(t, app.data),
{
    lemma_top_rows(app.tree.nodes, 0, app.data);
}

/// Switching a node's expansion keeps the tree's shape and what its nodes
/// refer to.
pub proof fn lemma_toggled_types_ok(nodes: Seq<TreeNodeView>, ty: TreeNodeType, label: Seq<char>, d: ElfDataView)
    requires
        tree_types_ok(nodes, d),
    ensures
        tree_types_ok(crate::ui::tree::toggled(nodes, ty, label), d),
{
    let t = crate::ui::tree::toggled(nodes, ty, label);
    crate::ui::tree::lemma_toggle_hit(nodes, ty, label, 0);
    let (a, b) = crate::ui::tree::toggle_hit(nodes, ty, label, 0);
    assert forall|i: int| 0 <= i < t.len() implies {
        &&& type_ok(#[trigger] t[i].node_type, d)
        &&& forall|j: int|
            0 <= j < t[i].children.len() ==> type_ok(#[trigger] t[i].children[j].node_type, d)
                && t[i].children[j].children.len() == 0
    } by {
        assert(type_ok(nodes[i].node_type, d));
        assert forall|j: int| 0 <= j < t[i].children.len() implies type_ok(#[trigger] t[i].children[j].node_type, d)
            && t[i].children[j].children.len() == 0 by {
            assert(type_ok(nodes[i].children[j].node_type, d));
            if i == a && b >= 0 && j == b {
                assert(t[i].children[j] == crate::ui::tree::flip(nodes[i].children[j]));
            } else if i == a && b >= 0 {
                assert(t[i].children[j] == nodes[i].children[j]);
            }
        }
    }
}


/// Whether the viewer can be started on `data` (see `data_ok`); a caller
/// tests this before `App::new`.
pub fn data_fits(data: &ElfData) -> (r: bool)
    ensures
        r == data_ok(data@),
{
    let (phnum, phentsize, shnum, shentsize) = (data.phnum, data.phentsize, data.shnum, data.shentsize);
    assert(phnum * phentsize <= 0xffff * 0xffff) by (nonlinear_arith)
        requires
            phnum <= 0xffff,
            phentsize <= 0xffff,
    ;
    assert(shnum * shentsize <= 0xffff * 0xffff) by (nonlinear_arith)
        requires
            shnum <= 0xffff,
            shentsize <= 0xffff,
    ;
    let ph_size = phnum as u64 * phentsize as u64;
    let sh_size = shnum as u64 * shentsize as u64;
    if data.phoff > u64::MAX - ph_size || data.shoff > u64::MAX - sh_size {
        return false;
    }
    let mut i: usize = 0;
    while i < data.sections.len()
        invariant
            i <= data.sections@.len(),
            data@.phoff + data@.phnum * data@.phentsize <= u64::MAX,
            data@.shoff + data@.shnum * data@.shentsize <= u64::MAX,
            forall|k: int|
                0 <= k < i ==> #[trigger] data@.sections[k].offset + data@.sections[k].size <= u64::MAX
                    && data@.sections[k].index == k && addressable(data@.sections[k]),
        decreases data.sections@.len() - i,
    {
        let s = &data.sections[i];
        assert(data@.sections[i as int] == s@);
        let exec = str_contains_char(s.flags.as_str(), 'X');
        if s.offset > u64::MAX - s.size || s.index != i || (exec && s.data.len() as u64 > u64::MAX - s.addr) {
            assert(!data_ok(data@)) by {
                if data_ok(data@) {
                    assert(data@.sections[i as int].index == i);
                    assert(data@.sections[i as int].offset + data@.sections[i as int].size <= u64::MAX);
                    assert(addressable(data@.sections[i as int]));
                }
            }
            return false;
        }
        i = i + 1;
    }
    let mut j: usize = 0;
    while j < data.segments.len()
        invariant
            j <= data.segments@.len(),
            data@.phoff + data@.phnum * data@.phentsize <= u64::MAX,
            data@.shoff + data@.shnum * data@.shentsize <= u64::MAX,
            forall|k: int|
                0 <= k < data@.sections.len() ==> #[trigger] data@.sections[k].offset + data@.sections[k].size <= u64::MAX
                    && data@.sections[k].index == k && addressable(data@.sections[k]),
            forall|k: int|
                0 <= k < j ==> #[trigger] data@.segments[k].vaddr + data@.segments[k].memsz <= u64::MAX
                    && data@.segments[k].index == k,
        decreases data.segments@.len() - j,
    {
        let g = &data.segments[j];
        assert(data@.segments[j as int] == g@);
        if g.vaddr > u64::MAX - g.memsz || g.index != j {
            assert(!data_ok(data@)) by {
                if data_ok(data@) {
                    assert(data@.segments[j as int].index == j);
                    assert(data@.segments[j as int].vaddr + data@.segments[j as int].memsz <= u64::MAX);
                }
            }
            return false;
        }
        j = j + 1;
    }
    proof {
        let d = data@;
        assert forall|k: int| 0 <= k < d.sections.len() implies #[trigger] d.sections[k].offset + d.sections[k].size <= u64::MAX by {
            assert(d.sections[k].offset + d.sections[k].size <= u64::MAX);
        }
        assert forall|k: int| 0 <= k < d.sections.len() implies #[trigger] d.sections[k].index == k by {
            assert(d.sections[k].offset + d.sections[k].size <= u64::MAX);
        }
        assert forall|k: int| 0 <= k < d.sections.len() implies addressable(#[trigger] d.sections[k]) by {
            assert(d.sections[k].offset + d.sections[k].size <= u64::MAX);
        }
        assert forall|k: int| 0 <= k < d.segments.len() implies #[trigger] d.segments[k].vaddr + d.segments[k].memsz <= u64::MAX by {
            assert(d.segments[k].vaddr + d.segments[k].memsz <= u64::MAX);
        }
        assert forall|k: int| 0 <= k < d.segments.len() implies #[trigger] d.segments[k].index == k by {
            assert(d.segments[k].vaddr + d.segments[k].memsz <= u64::MAX);
        }
        assert(layout_fits(d));
        assert(tree_fits(d));
    }
    true
}

} // verus!
