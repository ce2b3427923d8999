//! What each key does: the viewer's state machine.

use vstd::prelude::*;

use crate::app::navigate::{
    down_fits, hex_section_index, layout_map_entered, scrolled_down, scrolled_up, view_cycled,
    view_updated, with_position,
};
use crate::app::{app_ok, App, AppView, DetailView, DisasmSubFocus, Focus};
use crate::text::{pop_char, push_char};
use crate::ui::disasm::DisasmState;
use crate::ui::hexdump::HexdumpView;
use crate::ui::layout_map::LayoutMapState;
use crate::ui::search::{
    do_search, is_hex_query_str, next_result, prev_result, result_advanced, result_retreated, search_reads_header,
    searched, SearchView,
};
use crate::ui::tree::{collapsed, expanded, expansion_toggled, moved_down, moved_up, node_selected};

verus! {

/// A key press, as the viewer tells keys apart.
#[derive(Debug, Clone, Copy, PartialEq, Eq, Structural)]
pub enum Key {
    Char(char),
    Esc,
    Enter,
    Backspace,
    Tab,
    Up,
    Down,
    Left,
    Right,
    PageUp,
    PageDown,
    Home,
    End,
    Other,
}

/// Rows the hexdump keeps in view when its cursor moves down.
pub const HEX_VISIBLE_ROWS: usize = 20;

/// `a + b`, or `usize::MAX` when it would not fit.
pub open spec fn sat_add(a: usize, b: usize) -> usize {
    if a + b > usize::MAX {
        usize::MAX
    } else {
        (a + b) as usize
    }
}

/// The viewer with the pending `g` of a `gg` cleared.
pub open spec fn unpended(a: AppView) -> AppView {
    AppView { pending_g: false, ..a }
}

/// With the help shown, Esc, `q`, `?`, `H` and `h` close it; other keys do
/// nothing.
pub open spec fn help_step(a: AppView, key: Key) -> AppView {
    match key {
        Key::Esc | Key::Char('q') | Key::Char('?') | Key::Char('H') | Key::Char('h') => AppView {
            show_help: false,
            ..a
        },
        _ => a,
    }
}

/// `b` is `a` after `key` at the open search prompt: Esc closes and clears
/// it (and the matches) and focuses the tree; Enter runs the search, closes
/// the prompt and focuses the panel; Backspace deletes the last character;
/// a character is typed; other keys do nothing.
pub open spec fn prompt_step(a: AppView, key: Key, b: AppView) -> bool {
    match key {
        Key::Esc => b == AppView {
            search: SearchView { active: false, input: Seq::empty(), results: Seq::empty(), ..a.search },
            focus: Focus::Tree,
            ..a
        },
        Key::Enter => exists|m: AppView|
            #[trigger] searched(a, m) && b == AppView {
                search: SearchView { active: false, ..m.search },
                focus: Focus::Detail,
                ..m
            },
        Key::Backspace => b == AppView {
            search: SearchView {
                input: if a.search.input.len() > 0 { a.search.input.drop_last() } else { a.search.input },
                ..a.search
            },
            ..a
        },
        Key::Char(c) => b == AppView { search: SearchView { input: a.search.input.push(c), ..a.search }, ..a },
        _ => b == a,
    }
}

/// `b` is `a` after Esc: it first clears the search highlights; else, in
/// the disassembly's instruction list, goes back to the function list;
/// else goes back to the panel (and node) remembered, if any.
pub open spec fn escaped(a: AppView, b: AppView) -> bool {
    if a.search.query.len() > 0 {
        b == AppView { search: SearchView { query: Seq::empty(), results: Seq::empty(), current_result: 0, ..a.search }, ..a }
    } else if a.focus == Focus::Detail && a.current_view == DetailView::Disassembly && a.disasm_subfocus
        == DisasmSubFocus::Instructions {
        b == AppView { disasm_subfocus: DisasmSubFocus::FuncList, ..a }
    } else {
        match a.prev_view {
            Some(v) => {
                let a1 = AppView { current_view: v, prev_view: None, prev_node: None, ..a };
                match a.prev_node {
                    Some(n) => b == AppView { tree: node_selected(a1.tree, n), ..a1 },
                    None => b == a1,
                }
            },
            None => b == a,
        }
    }
}

/// The viewer with the hexdump cursor at `c`.
pub open spec fn with_cursor(a: AppView, c: usize) -> AppView {
    AppView { hexdump: HexdumpView { cursor_offset: c, ..a.hexdump }, ..a }
}

/// The hexdump cursor moved back to `c`, scrolling up a row when the
/// cursor's row is above the view.
pub open spec fn cursor_back(a: AppView, c: usize) -> AppView {
    let a1 = with_cursor(a, c);
    if c / 16 < a.hexdump.scroll {
        scrolled_up(a1, 1)
    } else {
        a1
    }
}

/// The hexdump cursor moved on to `c`, scrolling down a row when the
/// cursor's row reaches the last of the rows kept in view.
pub open spec fn cursor_on(a: AppView, c: usize) -> AppView {
    let a1 = with_cursor(a, c);
    if c / 16 >= sat_add(a.hexdump.scroll, (HEX_VISIBLE_ROWS - 1) as usize) {
        scrolled_down(a1, 1)
    } else {
        a1
    }
}

/// `b` is `a` after Up or `k`: in the tree, the highlight moves up and its
/// panel is shown; in a panel, the hexdump cursor moves up a row, the
/// function list up a function, the layout map up a row, other panels up a
/// line.
pub open spec fn up_step(a: AppView, b: AppView) -> bool {
    let a0 = unpended(a);
    if a.focus == Focus::Tree {
        view_updated(AppView { tree: moved_up(a0.tree), ..a0 }, b)
    } else if a.focus == Focus::Detail {
        b == match a.current_view {
            DetailView::Hexdump => cursor_back(
                a0,
                if a.hexdump.cursor_offset >= 16 { (a.hexdump.cursor_offset - 16) as usize } else { a.hexdump.cursor_offset },
            ),
            DetailView::Disassembly => if a.disasm_subfocus == DisasmSubFocus::FuncList {
                if a.disasm.selected_function > 0 {
                    AppView { disasm: DisasmState { selected_function: (a.disasm.selected_function - 1) as usize, scroll: 0 }, ..a0 }
                } else {
                    a0
                }
            } else {
                scrolled_up(a0, 1)
            },
            DetailView::LayoutMap => if a.layout_map.selected_row > 0 {
                AppView {
                    layout_map: LayoutMapState { selected_row: (a.layout_map.selected_row - 1) as usize, ..a.layout_map },
                    ..a0
                }
            } else {
                a0
            },
            _ => scrolled_up(a0, 1),
        }
    } else {
        b == a0
    }
}

/// `b` is `a` after Down or `j`, the mirror of `up_step`; the function
/// list stops at its last function, the layout map at its last row.
pub open spec fn down_step(a: AppView, b: AppView) -> bool {
    let a0 = unpended(a);
    if a.focus == Focus::Tree {
        view_updated(AppView { tree: moved_down(a0.tree), ..a0 }, b)
    } else if a.focus == Focus::Detail {
        b == match a.current_view {
            DetailView::Hexdump => cursor_on(a0, (a.hexdump.cursor_offset + 16) as usize),
            DetailView::Disassembly => if a.disasm_subfocus == DisasmSubFocus::FuncList {
                match a.disasm_cache {
                    Some(d) => if a.disasm.selected_function + 1 < d.functions.len() {
                        AppView {
                            disasm: DisasmState { selected_function: (a.disasm.selected_function + 1) as usize, scroll: 0 },
                            ..a0
                        }
                    } else {
                        a0
                    },
                    None => a0,
                }
            } else {
                scrolled_down(a0, 1)
            },
            DetailView::LayoutMap => if a.layout_map.selected_row + 1 < a.layout_map.region_count {
                AppView {
                    layout_map: LayoutMapState { selected_row: (a.layout_map.selected_row + 1) as usize, ..a.layout_map },
                    ..a0
                }
            } else {
                a0
            },
            _ => scrolled_down(a0, 1),
        }
    } else {
        b == a0
    }
}

/// The hexdump is shown and has the keys.
pub open spec fn in_hexdump(a: AppView) -> bool {
    a.focus == Focus::Detail && a.current_view == DetailView::Hexdump
}

/// The disassembly is shown and has the keys.
pub open spec fn in_disasm(a: AppView) -> bool {
    a.focus == Focus::Detail && a.current_view == DetailView::Disassembly
}

/// The viewer after `h` (or Left) in the hexdump: the cursor moves back a
/// byte.
pub open spec fn hex_left(a0: AppView) -> AppView {
    if a0.hexdump.cursor_offset > 0 {
        cursor_back(a0, (a0.hexdump.cursor_offset - 1) as usize)
    } else {
        a0
    }
}

/// `b` is `a` after `key` with neither the help nor the search prompt open.
pub open spec fn main_step(a: AppView, key: Key, b: AppView) -> bool {
    let a0 = unpended(a);
    let detail = a.focus == Focus::Detail;
    match key {
        Key::Char('q') => b == AppView { should_quit: true, ..a },
        Key::Esc => escaped(a, b),
        Key::Char('?') => b == AppView { show_help: true, ..a },
        Key::Char('H') => b == AppView { show_help: true, ..a },
        Key::Char('/') => b == AppView {
            search: SearchView { active: true, input: Seq::empty(), ..a.search },
            focus: Focus::Search,
            ..a
        },
        Key::Char('n') => b == result_advanced(a),
        Key::Char('N') => b == result_retreated(a),
        Key::Tab => b == AppView {
            focus: match a.focus {
                Focus::Tree => Focus::Detail,
                Focus::Detail => Focus::Tree,
                Focus::Search => Focus::Search,
            },
            ..a
        },
        Key::Up | Key::Char('k') => up_step(a, b),
        Key::Down | Key::Char('j') => down_step(a, b),
        Key::Char('h') => b == if in_hexdump(a) {
            hex_left(a0)
        } else if a.focus == Focus::Tree {
            AppView { tree: collapsed(a0.tree), ..a0 }
        } else {
            a0
        },
        Key::Char('l') => b == if in_hexdump(a) {
            cursor_on(a0, (a.hexdump.cursor_offset + 1) as usize)
        } else if a.focus == Focus::Tree {
            AppView { tree: expanded(a0.tree), ..a0 }
        } else {
            a0
        },
        Key::Right => b == if in_hexdump(a) {
            cursor_on(a0, (a.hexdump.cursor_offset + 1) as usize)
        } else if in_disasm(a) {
            if a.disasm_subfocus == DisasmSubFocus::FuncList {
                AppView { disasm_subfocus: DisasmSubFocus::Instructions, ..a0 }
            } else {
                a0
            }
        } else if a.focus == Focus::Tree {
            AppView { tree: expanded(a0.tree), ..a0 }
        } else {
            a0
        },
        Key::Left => b == if in_hexdump(a) {
            hex_left(a0)
        } else if in_disasm(a) {
            if a.disasm_subfocus == DisasmSubFocus::Instructions {
                AppView { disasm_subfocus: DisasmSubFocus::FuncList, ..a0 }
            } else {
                a0
            }
        } else if a.focus == Focus::Tree {
            AppView { tree: collapsed(a0.tree), ..a0 }
        } else {
            a0
        },
        Key::Char('m') => if detail { view_cycled(a0, b) } else { b == a0 },
        Key::Enter => if detail && a.current_view == DetailView::LayoutMap {
            layout_map_entered(a0, b)
        } else if in_disasm(a) {
            b == AppView { disasm: DisasmState { scroll: 0, ..a.disasm }, ..a0 }
        } else if a.focus == Focus::Tree {
            b == AppView { tree: expanded(a0.tree), ..a0 }
        } else {
            b == a0
        },
        Key::Char('g') => b == if detail {
            if a.pending_g {
                let a2 = with_position(a0, 0);
                if a.current_view == DetailView::Hexdump { with_cursor(a2, 0) } else { a2 }
            } else {
                AppView { pending_g: true, ..a }
            }
        } else {
            a
        },
        Key::Char('G') => b == if detail {
            let a1 = if a.current_view == DetailView::Hexdump {
                match hex_section_index(a) {
                    Some(i) => {
                        let len = a.data.sections[i as int].data.len();
                        with_cursor(a0, if len > 0 { (len - 1) as usize } else { 0 })
                    },
                    None => a0,
                }
            } else {
                a0
            };
            with_position(a1, usize::MAX)
        } else {
            a0
        },
        Key::Char('u') => b == if detail { scrolled_up(a0, 10) } else { a0 },
        Key::Char('d') => b == if detail { scrolled_down(a0, 10) } else { a0 },
        Key::Char(' ') | Key::PageDown => b == if detail { scrolled_down(a0, 20) } else { a0 },
        Key::Char('b') | Key::PageUp => b == if detail { scrolled_up(a0, 20) } else { a0 },
        Key::Home => b == if detail { with_position(a0, 0) } else { a0 },
        Key::End => b == if detail { with_position(a0, usize::MAX) } else { a0 },
        _ => b == a0,
    }
}

/// `b` is `a` after `key`: the help, when shown, takes the key; else the
/// open search prompt does; else the key acts on the tree or the panel.
pub open spec fn key_step(a: AppView, key: Key, b: AppView) -> bool {
    if a.show_help {
        b == help_step(a, key)
    } else if a.search.active {
        prompt_step(a, key, b)
    } else {
        main_step(a, key, b)
    }
}

/// `key` cannot be handled: it would take a count or position past
/// `usize::MAX` (the hexdump cursor, the highlighted line or scroll position
/// of the shown panel, or the layout map's row), or, at the prompt, run a
/// search of the overview of a file shorter than its 16 identification
/// bytes.
pub open spec fn key_overflows(a: AppView, key: Key) -> bool {
    let a0 = unpended(a);
    let detail = a.focus == Focus::Detail;
    if a.show_help {
        false
    } else if a.search.active {
        key == Key::Enter && search_reads_header(a) && a.data.raw_bytes.len() < 16
    } else {
        match key {
            Key::Down | Key::Char('j') => detail && match a.current_view {
                DetailView::Hexdump => a.hexdump.cursor_offset + 16 > usize::MAX,
                DetailView::Disassembly => a.disasm_subfocus != DisasmSubFocus::FuncList && !down_fits(a0, 1),
                DetailView::LayoutMap => a.layout_map.selected_row == usize::MAX,
                _ => !down_fits(a0, 1),
            },
            Key::Char('l') | Key::Right => in_hexdump(a) && a.hexdump.cursor_offset + 1 > usize::MAX,
            Key::Char('d') => detail && !down_fits(a0, 10),
            Key::Char(' ') | Key::PageDown => detail && !down_fits(a0, 20),
            _ => false,
        }
    }
}


/// Switching, collapsing or expanding a node keeps the tree's shape and
/// what its nodes refer to.
proof fn lemma_toggle_keeps_types(t: crate::ui::tree::TreeStateView, d: crate::elf::parser::ElfDataView)
    requires
        crate::app::tree_types_ok(t.nodes, d),
    ensures
        crate::app::tree_types_ok(expansion_toggled(t).nodes, d),
        crate::app::tree_types_ok(collapsed(t).nodes, d),
        crate::app::tree_types_ok(expanded(t).nodes, d),
{
    let rs = crate::ui::tree::rows(t.nodes);
    let idx = crate::ui::tree::cursor_row(t.selected);
    if 0 <= idx < rs.len() {
        crate::app::lemma_toggled_types_ok(t.nodes, rs[idx].node_type, rs[idx].label, d);
    }
}

impl App {
    fn cursor_back(&mut self, c: usize)
        ensures
            final(self)@ == cursor_back(old(self)@, c),
            app_ok(old(self)@) ==> app_ok(final(self)@),
    {
        let scroll = self.hexdump.scroll;
        self.hexdump.cursor_offset = c;
        if c / 16 < scroll {
            self.scroll_up(1);
        }
    }

    fn cursor_on(&mut self, c: usize)
        requires
            old(self).current_view == DetailView::Hexdump,
        ensures
            final(self)@ == cursor_on(old(self)@, c),
            app_ok(old(self)@) ==> app_ok(final(self)@),
    {
        let scroll = self.hexdump.scroll;
        self.hexdump.cursor_offset = c;
        if c / 16 >= scroll.saturating_add(HEX_VISIBLE_ROWS - 1) {
            assert(scroll + 1 <= usize::MAX);
            self.scroll_down(1);
        }
    }

    fn prompt_key(&mut self, key: Key)
        requires
            app_ok(old(self)@),
            !key_overflows(old(self)@, key),
            old(self).search.active,
            !old(self).show_help,
        ensures
            prompt_step(old(self)@, key, final(self)@),
            app_ok(final(self)@),
    {
        match key {
            Key::Esc => {
                self.search.active = false;
                self.search.input = String::new();
                self.search.results.clear();
                self.focus = Focus::Tree;
            },
            Key::Enter => {
                do_search(self);
                let ghost m = self@;
                self.search.active = false;
                self.focus = Focus::Detail;
                assert(searched(old(self)@, m));
            },
            Key::Backspace => {
                pop_char(&mut self.search.input);
            },
            Key::Char(c) => {
                push_char(&mut self.search.input, c);
            },
            _ => {},
        }
    }

    fn escape_key(&mut self)
        requires
            app_ok(old(self)@),
        ensures
            escaped(old(self)@, final(self)@),
            app_ok(final(self)@),
    {
        if self.search.query.as_str().unicode_len() > 0 {
            self.search.query = String::new();
            self.search.results.clear();
            self.search.current_result = 0;
        } else if self.focus == Focus::Detail && self.current_view == DetailView::Disassembly
            && self.disasm_subfocus == DisasmSubFocus::Instructions {
            self.disasm_subfocus = DisasmSubFocus::FuncList;
        } else if let Some(v) = self.prev_view {
            let n = self.prev_node;
            self.current_view = v;
            self.prev_view = None;
            self.prev_node = None;
            if let Some(node) = n {
                self.tree.select_node(&node);
            }
        }
    }

    fn up_key(&mut self)
        requires
            app_ok(old(self)@),
        ensures
            up_step(old(self)@, final(self)@),
            app_ok(final(self)@),
    {
        self.pending_g = false;
        if self.focus == Focus::Tree {
            self.tree.move_up();
            self.update_view();
        } else if self.focus == Focus::Detail {
            match self.current_view {
                DetailView::Hexdump => {
                    let c = if self.hexdump.cursor_offset >= 16 {
                        self.hexdump.cursor_offset - 16
                    } else {
                        self.hexdump.cursor_offset
                    };
                    self.cursor_back(c);
                },
                DetailView::Disassembly => {
                    if self.disasm_subfocus == DisasmSubFocus::FuncList {
                        if self.disasm.selected_function > 0 {
                            self.disasm.selected_function = self.disasm.selected_function - 1;
                            self.disasm.scroll = 0;
                        }
                    } else {
                        self.scroll_up(1);
                    }
                },
                DetailView::LayoutMap => {
                    if self.layout_map.selected_row > 0 {
                        self.layout_map.selected_row = self.layout_map.selected_row - 1;
                    }
                },
                _ => self.scroll_up(1),
            }
        }
    }

    fn down_key(&mut self)
        requires
            app_ok(old(self)@),
            !old(self).show_help,
            !old(self).search.active,
            !key_overflows(old(self)@, Key::Down),
        ensures
            down_step(old(self)@, final(self)@),
            app_ok(final(self)@),
    {
        self.pending_g = false;
        if self.focus == Focus::Tree {
            self.tree.move_down();
            self.update_view();
        } else if self.focus == Focus::Detail {
            match self.current_view {
                DetailView::Hexdump => {
                    let c = self.hexdump.cursor_offset + 16;
                    self.cursor_on(c);
                },
                DetailView::Disassembly => {
                    if self.disasm_subfocus == DisasmSubFocus::FuncList {
                        let count = match &self.disasm_cache {
                            Some(d) => Some(d.functions.len()),
                            None => None,
                        };
                        if let Some(n) = count {
                            if self.disasm.selected_function + 1 < n {
                                self.disasm.selected_function = self.disasm.selected_function + 1;
                                self.disasm.scroll = 0;
                            }
                        }
                    } else {
                        self.scroll_down(1);
                    }
                },
                DetailView::LayoutMap => {
                    if self.layout_map.selected_row + 1 < self.layout_map.region_count {
                        self.layout_map.selected_row = self.layout_map.selected_row + 1;
                    }
                },
                _ => self.scroll_down(1),
            }
        }
    }

    fn hex_left(&mut self)
        ensures
            final(self)@ == hex_left(old(self)@),
            app_ok(old(self)@) ==> app_ok(final(self)@),
    {
        if self.hexdump.cursor_offset > 0 {
            let c = self.hexdump.cursor_offset - 1;
            self.cursor_back(c);
        }
    }

    fn right_key(&mut self)
        requires
            app_ok(old(self)@),
            !old(self).show_help,
            !old(self).search.active,
            !key_overflows(old(self)@, Key::Right),
        ensures
            main_step(old(self)@, Key::Right, final(self)@),
            app_ok(final(self)@),
    {
        self.pending_g = false;
        if self.focus == Focus::Detail && self.current_view == DetailView::Hexdump {
            let c = self.hexdump.cursor_offset + 1;
            self.cursor_on(c);
        } else if self.focus == Focus::Detail && self.current_view == DetailView::Disassembly {
            if self.disasm_subfocus == DisasmSubFocus::FuncList {
                self.disasm_subfocus = DisasmSubFocus::Instructions;
            }
        } else if self.focus == Focus::Tree {
            proof {
                lemma_toggle_keeps_types(self@.tree, self@.data);
            }
            self.tree.expand_current();
        }
    }

    fn left_key(&mut self)
        requires
            app_ok(old(self)@),
        ensures
            main_step(old(self)@, Key::Left, final(self)@),
            app_ok(final(self)@),
    {
        self.pending_g = false;
        if self.focus == Focus::Detail && self.current_view == DetailView::Hexdump {
            self.hex_left();
        } else if self.focus == Focus::Detail && self.current_view == DetailView::Disassembly {
            if self.disasm_subfocus == DisasmSubFocus::Instructions {
                self.disasm_subfocus = DisasmSubFocus::FuncList;
            }
        } else if self.focus == Focus::Tree {
            proof {
                lemma_toggle_keeps_types(self@.tree, self@.data);
            }
            self.tree.collapse_current();
        }
    }

    fn enter_key(&mut self)
        requires
            app_ok(old(self)@),
        ensures
            main_step(old(self)@, Key::Enter, final(self)@),
            app_ok(final(self)@),
    {
        self.pending_g = false;
        if self.focus == Focus::Detail && self.current_view == DetailView::LayoutMap {
            self.layout_map_enter();
        } else if self.focus == Focus::Detail && self.current_view == DetailView::Disassembly {
            self.disasm.scroll = 0;
        } else if self.focus == Focus::Tree {
            proof {
                lemma_toggle_keeps_types(self@.tree, self@.data);
            }
            self.tree.expand_current();
        }
    }

    fn bottom_key(&mut self)
        requires
            app_ok(old(self)@),
        ensures
            main_step(old(self)@, Key::Char('G'), final(self)@),
            app_ok(final(self)@),
    {
        self.pending_g = false;
        if self.focus == Focus::Detail {
            if self.current_view == DetailView::Hexdump {
                let len = match self.get_hex_section() {
                    Some(section) => Some(section.data.len()),
                    None => None,
                };
                if let Some(n) = len {
                    self.hexdump.cursor_offset = n.saturating_sub(1);
                }
            }
            self.scroll_bottom();
        }
    }
}

/// Acts on one key press (see `key_step`).
pub fn handle_key(app: &mut App, key: Key)
    requires
        app_ok(old(app)@),
        !key_overflows(old(app)@, key),
    ensures
        key_step(old(app)@, key, final(app)@),
        app_ok(final(app)@),
{
    if app.show_help {
        match key {
            Key::Esc | Key::Char('q') | Key::Char('?') | Key::Char('H') | Key::Char('h') => {
                app.show_help = false;
            },
            _ => {},
        }
        return;
    }
    if app.search.active {
        app.prompt_key(key);
        return;
    }
    main_key(app, key);
}

fn misc_key(app: &mut App, key: Key)
    requires
        app_ok(old(app)@),
        !key_overflows(old(app)@, key),
        !old(app).show_help,
        !old(app).search.active,
        key == Key::Char('q') || key == Key::Char('?') || key == Key::Char('H') || key == Key::Char('/')
            || key == Key::Char('n') || key == Key::Char('N') || key == Key::Tab || key == Key::Char('m'),
    ensures
        main_step(old(app)@, key, final(app)@),
        app_ok(final(app)@),
{
    match key {
        Key::Char('q') => app.should_quit = true,
        Key::Char('?') => app.show_help = true,
        Key::Char('H') => app.show_help = true,
        Key::Char('/') => {
            app.search.active = true;
            app.search.input = String::new();
            app.focus = Focus::Search;
        },
        Key::Char('n') => next_result(app),
        Key::Char('N') => prev_result(app),
        Key::Char('m') => {
            app.pending_g = false;
            if app.focus == Focus::Detail {
                app.cycle_section_view();
            }
        },
        _ => {
            app.focus = match app.focus {
                Focus::Tree => Focus::Detail,
                Focus::Detail => Focus::Tree,
                Focus::Search => Focus::Search,
            };
        },
    }
}

fn scroll_key(app: &mut App, key: Key)
    requires
        app_ok(old(app)@),
        !key_overflows(old(app)@, key),
        !old(app).show_help,
        !old(app).search.active,
        key == Key::Char('u') || key == Key::PageUp || key == Key::Char('d') || key == Key::PageDown
            || key == Key::Char(' ') || key == Key::Char('b') || key == Key::Home || key == Key::End
            || key == Key::Char('g'),
    ensures
        main_step(old(app)@, key, final(app)@),
        app_ok(final(app)@),
{
    if key == Key::Char('g') {
        if app.focus == Focus::Detail {
            if app.pending_g {
                app.pending_g = false;
                let hex = app.current_view == DetailView::Hexdump;
                app.scroll_top();
                if hex {
                    app.hexdump.cursor_offset = 0;
                }
            } else {
                app.pending_g = true;
            }
        }
        return;
    }
    app.pending_g = false;
    if app.focus == Focus::Detail {
        match key {
            Key::Char('u') => app.scroll_up(10),
            Key::Char('d') => app.scroll_down(10),
            Key::Char(' ') | Key::PageDown => app.scroll_down(20),
            Key::Char('b') | Key::PageUp => app.scroll_up(20),
            Key::Home => app.scroll_top(),
            _ => app.scroll_bottom(),
        }
    }
}

fn hex_key(app: &mut App, key: Key)
    requires
        app_ok(old(app)@),
        !key_overflows(old(app)@, key),
        !old(app).show_help,
        !old(app).search.active,
        key == Key::Char('h') || key == Key::Char('l'),
    ensures
        main_step(old(app)@, key, final(app)@),
        app_ok(final(app)@),
{
    app.pending_g = false;
    if app.focus == Focus::Detail && app.current_view == DetailView::Hexdump {
        if key == Key::Char('h') {
            app.hex_left();
        } else {
            let c = app.hexdump.cursor_offset + 1;
            app.cursor_on(c);
        }
    } else if app.focus == Focus::Tree {
        proof {
            lemma_toggle_keeps_types(app@.tree, app@.data);
        }
        if key == Key::Char('h') {
            app.tree.collapse_current();
        } else {
            app.tree.expand_current();
        }
    }
}

fn main_key(app: &mut App, key: Key)
    requires
        app_ok(old(app)@),
        !old(app).show_help,
        !old(app).search.active,
        !key_overflows(old(app)@, key),
    ensures
        main_step(old(app)@, key, final(app)@),
        app_ok(final(app)@),
{
    match key {
        Key::Esc => app.escape_key(),
        Key::Up | Key::Char('k') => app.up_key(),
        Key::Down | Key::Char('j') => app.down_key(),
        Key::Right => app.right_key(),
        Key::Left => app.left_key(),
        Key::Enter => app.enter_key(),
        Key::Char('G') => app.bottom_key(),
        Key::Char('q') | Key::Char('?') | Key::Char('H') | Key::Char('/') | Key::Char('n')
        | Key::Char('N') | Key::Tab | Key::Char('m') => misc_key(app, key),
        Key::Char('u') | Key::PageUp | Key::Char('d') | Key::PageDown | Key::Char(' ')
        | Key::Char('b') | Key::Home | Key::End | Key::Char('g') => scroll_key(app, key),
        Key::Char('h') | Key::Char('l') => hex_key(app, key),
        _ => {
            app.pending_g = false;
        },
    }
}

/// Whether `key` would overflow (see `key_overflows`); a caller tests this
/// before `handle_key`.
pub fn key_would_overflow(app: &App, key: Key) -> (r: bool)
    ensures
        r == key_overflows(app@, key),
{
    if app.show_help {
        return false;
    }
    if app.search.active {
        if key != Key::Enter || app.current_view != DetailView::Overview || app.data.raw_bytes.len() >= 16 {
            return false;
        }
        let n = app.search.input.as_str().unicode_len();
        return n > 0 && !is_hex_query_str(app.search.input.as_str());
    }
    let detail = app.focus == Focus::Detail;
    let pos = app.position();
    match key {
        Key::Down | Key::Char('j') => detail && match app.current_view {
            DetailView::Hexdump => app.hexdump.cursor_offset > usize::MAX - 16,
            DetailView::Disassembly => app.disasm_subfocus != DisasmSubFocus::FuncList && pos == usize::MAX,
            DetailView::LayoutMap => app.layout_map.selected_row == usize::MAX,
            _ => pos == usize::MAX,
        },
        Key::Char('l') | Key::Right => detail && app.current_view == DetailView::Hexdump
            && app.hexdump.cursor_offset == usize::MAX,
        Key::Char('d') => detail && pos > usize::MAX - 10,
        Key::Char(' ') | Key::PageDown => detail && pos > usize::MAX - 20,
        _ => false,
    }
}


/// Law: Tab twice gives the keys back to where they were (the tree or the
/// panel), leaving everything else as it was.
pub proof fn lemma_tab_twice(a: AppView, b: AppView, c: AppView)
    requires
        !a.show_help,
        !a.search.active,
        a.focus != Focus::Search,
        key_step(a, Key::Tab, b),
        key_step(b, Key::Tab, c),
    ensures
        c == a,
{
}

/// Law: opening the help with `?` and closing it with Esc leaves the viewer
/// as it was.
pub proof fn lemma_help_round_trip(a: AppView, b: AppView, c: AppView)
    requires
        !a.show_help,
        !a.search.active,
        key_step(a, Key::Char('?'), b),
        key_step(b, Key::Esc, c),
    ensures
        c == a,
{
}

/// Law: `H` toggles the help: pressed twice, it opens the help and closes
/// it again, leaving the viewer as it was.
pub proof fn lemma_help_toggle(a: AppView, b: AppView, c: AppView)
    requires
        !a.show_help,
        !a.search.active,
        key_step(a, Key::Char('H'), b),
        key_step(b, Key::Char('H'), c),
    ensures
        b.show_help,
        c == a,
{
}

/// Law: Enter at the search prompt runs the typed search, then closes the
/// prompt and gives the keys to the panel: the viewer is the state that a
/// search run on its own reaches, with the prompt closed and the panel
/// focused.
pub proof fn lemma_enter_runs_the_search(a: AppView, b: AppView, m: AppView)
    requires
        !a.show_help,
        a.search.active,
        key_step(a, Key::Enter, b),
        searched(a, m),
    ensures
        b == (AppView { search: SearchView { active: false, ..m.search }, focus: Focus::Detail, ..m }),
{
    let m1 = choose|m1: AppView|
        #[trigger] searched(a, m1) && b == (AppView {
            search: SearchView { active: false, ..m1.search },
            focus: Focus::Detail,
            ..m1
        });
    crate::ui::search::lemma_searched_unique(a, m1, m);
}

/// Law: `gg` in the hexdump goes to its top: the view scrolls to the first
/// row and the cursor to the first byte.
pub proof fn lemma_gg_hexdump(a: AppView, b: AppView, c: AppView)
    requires
        !a.show_help,
        !a.search.active,
        a.focus == Focus::Detail,
        a.current_view == DetailView::Hexdump,
        !a.pending_g,
        key_step(a, Key::Char('g'), b),
        key_step(b, Key::Char('g'), c),
    ensures
        b.pending_g,
        c.hexdump.scroll == 0,
        c.hexdump.cursor_offset == 0,
        !c.pending_g,
{
    reveal(with_position);
}

/// Law: in a panel, half a page down (`d`) and half a page up (`u`) return
/// to where one was, when the position was not already within half a page
/// of `usize::MAX`.
pub proof fn lemma_half_page_round_trip(a: AppView, b: AppView, c: AppView)
    requires
        !a.show_help,
        !a.search.active,
        !a.pending_g,
        a.focus == Focus::Detail,
        down_fits(unpended(a), 10),
        key_step(a, Key::Char('d'), b),
        key_step(b, Key::Char('u'), c),
    ensures
        c == a,
{
    crate::app::navigate::lemma_scroll_round_trip(a, 10);
}

} // verus!
