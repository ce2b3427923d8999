use elf_insight::app::keys::{handle_key, key_would_overflow, Key};
use elf_insight::app::{data_fits, App, DetailView, DisasmSubFocus, Focus, SectionViewMode};
use elf_insight::elf::parser::{ElfData, SectionInfo, SegmentInfo, SymbolInfo, SymbolType};
use elf_insight::ui::layout_map::build_regions;
use elf_insight::ui::tree::TreeNodeType;

fn section(name: &str, index: usize, addr: u64, offset: u64, flags: &str, data: Vec<u8>) -> SectionInfo {
    SectionInfo {
        name: name.to_string(),
        index,
        addr,
        offset,
        size: data.len() as u64,
        ty: if data.is_empty() { "NULL".to_string() } else { "PROGBITS".to_string() },
        flags: flags.to_string(),
        data,
    }
}

fn sample_data() -> ElfData {
    let mut raw = vec![0u8; 0x200];
    raw[0..7].copy_from_slice(&[0x7f, b'E', b'L', b'F', 2, 1, 1]);
    let text = vec![0x55, 0xc3, 0x90, 0xc3];
    raw[0x100..0x104].copy_from_slice(&text);
    let ro = b"hi\0World\0".to_vec();
    raw[0x110..0x119].copy_from_slice(&ro);
    ElfData {
        file_path: "sample".to_string(),
        raw_bytes: raw,
        class: 2,
        data: 1,
        os_abi: "UNIX - System V".to_string(),
        abi_version: 0,
        elf_type: "EXEC (Executable)".to_string(),
        is_pie: false,
        machine: "AMD x86-64".to_string(),
        version: 1,
        entry: 0x1000,
        phoff: 0x40,
        shoff: 0x140,
        flags: 0,
        ehsize: 64,
        phentsize: 56,
        phnum: 1,
        shentsize: 64,
        shnum: 3,
        shstrndx: 0,
        sections: vec![
            section("", 0, 0, 0, "-", vec![]),
            section(".text", 1, 0x1000, 0x100, "AX", text),
            section(".rodata", 2, 0x2000, 0x110, "A", ro),
        ],
        segments: vec![SegmentInfo {
            index: 0,
            ty: "LOAD".to_string(),
            offset: 0,
            vaddr: 0x1000,
            paddr: 0x1000,
            filesz: 0x200,
            memsz: 0x1100,
            flags: "RE".to_string(),
            align: 0x1000,
        }],
        symbols: vec![SymbolInfo {
            name: "main".to_string(),
            addr: 0x1002,
            size: 2,
            ty: SymbolType::Function,
            bind: "GLOBAL".to_string(),
            vis: "DEFAULT".to_string(),
            shndx: 1,
        }],
    }
}

fn press(app: &mut App, key: Key) {
    assert!(!key_would_overflow(app, key));
    handle_key(app, key);
}

fn type_text(app: &mut App, text: &str) {
    for c in text.chars() {
        press(app, Key::Char(c));
    }
}

fn new_app() -> App {
    let data = sample_data();
    assert!(data_fits(&data));
    App::new(data)
}

fn select_text_section(app: &mut App) {
    for _ in 0..7 {
        press(app, Key::Down);
    }
    assert_eq!(app.tree.selected_node, Some(TreeNodeType::SectionBody { index: 1 }));
}

#[test]
fn new_app_starts_on_overview() {
    let app = new_app();
    assert_eq!(app.current_view, DetailView::Overview);
    assert_eq!(app.focus, Focus::Tree);
    assert_eq!(app.tree.selected, Some(0));
    assert_eq!(app.tree.selected_node, Some(TreeNodeType::Overview));
    let rows = app.tree.collect_flat();
    assert_eq!(rows.len(), 13);
    assert_eq!(rows[3].label, "Program Headers (0x40-0x78)");
    assert_eq!(rows[4].label, "Section Headers (0x140-0x200)");
    assert_eq!(rows[5].label, "Sections (3)");
    assert_eq!(rows[6].label, "[0] ");
    assert_eq!(rows[7].label, "[1] .text (0x100-0x104)");
    assert_eq!(rows[10].label, "[0] LOAD (0x1000-0x2100)");
    assert_eq!(rows[12].label, "[F] main");
    assert_eq!(app.tree.flat_list, vec![0, 1, 2, 3, 4, 5, 0, 1, 2, 6, 0, 7, 0]);
}

#[test]
fn data_with_misnumbered_sections_is_refused() {
    let mut data = sample_data();
    data.sections[2].index = 5;
    assert!(!data_fits(&data));
}

fn empty_data() -> ElfData {
    ElfData {
        file_path: String::new(),
        raw_bytes: vec![],
        class: 2,
        data: 1,
        os_abi: String::new(),
        abi_version: 0,
        elf_type: String::new(),
        is_pie: false,
        machine: String::new(),
        version: 1,
        entry: 0,
        phoff: 0,
        shoff: 0,
        flags: 0,
        ehsize: 0,
        phentsize: 0,
        phnum: 0,
        shentsize: 0,
        shnum: 0,
        shstrndx: 0,
        sections: vec![],
        segments: vec![],
        symbols: vec![],
    }
}

#[test]
fn a_file_without_bytes_can_still_be_browsed() {
    let data = empty_data();
    assert!(data_fits(&data));
    let mut app = App::new(data);
    assert_eq!(app.current_view, DetailView::Overview);
    assert_eq!(app.tree.selected_node, Some(TreeNodeType::Overview));
    press(&mut app, Key::Down);
    assert_eq!(app.tree.selected, Some(1));
    assert_eq!(app.tree.selected_node, Some(TreeNodeType::LayoutMap));
    assert_eq!(app.current_view, DetailView::LayoutMap);
    press(&mut app, Key::Up);
    press(&mut app, Key::Char('/'));
    press(&mut app, Key::Char('q'));
    assert!(app.search.active);
    assert_eq!(app.search.input, "q");
    assert!(!app.should_quit);
    assert_eq!(app.focus, Focus::Search);
    assert!(key_would_overflow(&app, Key::Enter));
    press(&mut app, Key::Esc);
    press(&mut app, Key::Char('q'));
    assert!(app.should_quit);
}

#[test]
fn moving_down_shows_the_layout_map() {
    let mut app = new_app();
    press(&mut app, Key::Down);
    assert_eq!(app.tree.selected_node, Some(TreeNodeType::LayoutMap));
    assert_eq!(app.current_view, DetailView::LayoutMap);
    press(&mut app, Key::Char('k'));
    assert_eq!(app.tree.selected_node, Some(TreeNodeType::Overview));
    assert_eq!(app.current_view, DetailView::Overview);
    press(&mut app, Key::Up);
    assert_eq!(app.tree.selected, Some(0));
}

#[test]
fn selecting_code_loads_its_disassembly() {
    let mut app = new_app();
    select_text_section(&mut app);
    assert_eq!(app.current_view, DetailView::Disassembly);
    assert_eq!(app.section_view_mode, Some(SectionViewMode::Disassembly));
    assert_eq!(app.current_disasm_section, Some(1));
    assert_eq!(app.disasm.selected_function, 0);
    assert_eq!(app.disasm.scroll, 0);
    let d = app.disasm_cache.as_ref().unwrap();
    assert_eq!(d.all_instructions.len(), 4);
    assert_eq!(d.bitness, 64);
    let names: Vec<&str> = d.functions.iter().map(|f| f.name.as_str()).collect();
    assert_eq!(names, vec!["sub_1000", "main"]);
    assert_eq!(d.functions[1].start_addr, 0x1002);
    assert_eq!(d.functions[1].end_addr, 0x1004);
}

#[test]
fn cycling_view_modes_wraps_round() {
    let mut app = new_app();
    select_text_section(&mut app);
    press(&mut app, Key::Tab);
    assert_eq!(app.focus, Focus::Detail);
    assert_eq!(app.section_view_mode, Some(SectionViewMode::Disassembly));
    press(&mut app, Key::Char('m'));
    assert_eq!(app.section_view_mode, Some(SectionViewMode::Info));
    assert_eq!(app.current_view, DetailView::StructuredInfo);
    press(&mut app, Key::Char('m'));
    assert_eq!(app.section_view_mode, Some(SectionViewMode::Hexdump));
    assert_eq!(app.current_view, DetailView::Hexdump);
    press(&mut app, Key::Char('m'));
    assert_eq!(app.section_view_mode, Some(SectionViewMode::Disassembly));
    assert_eq!(app.current_view, DetailView::Disassembly);
}

fn open_disassembly() -> App {
    let mut app = new_app();
    select_text_section(&mut app);
    press(&mut app, Key::Tab);
    assert_eq!(app.current_view, DetailView::Disassembly);
    app
}

#[test]
fn address_search_in_disassembly_finds_the_function() {
    let mut app = open_disassembly();
    press(&mut app, Key::Char('/'));
    assert_eq!(app.focus, Focus::Search);
    type_text(&mut app, "0x1003");
    press(&mut app, Key::Enter);
    assert_eq!(app.search.query, "0x1003");
    assert_eq!(app.search.results, vec![3]);
    assert!(!app.search.active);
    assert_eq!(app.focus, Focus::Detail);
    assert_eq!(app.disasm.selected_function, 1);
    assert_eq!(app.disasm.scroll, 1);
}

#[test]
fn text_search_in_disassembly_ignores_case() {
    let mut app = open_disassembly();
    press(&mut app, Key::Char('/'));
    type_text(&mut app, "RET");
    press(&mut app, Key::Enter);
    assert_eq!(app.search.results, vec![1, 3]);
    assert_eq!(app.search.current_result, 0);
    assert_eq!(app.disasm.selected_function, 0);
    assert_eq!(app.disasm.scroll, 1);
    press(&mut app, Key::Char('n'));
    assert_eq!(app.search.current_result, 1);
    assert_eq!(app.disasm.selected_function, 1);
    assert_eq!(app.disasm.scroll, 1);
    press(&mut app, Key::Char('n'));
    assert_eq!(app.search.current_result, 0);
    press(&mut app, Key::Char('N'));
    assert_eq!(app.search.current_result, 1);
    press(&mut app, Key::Char('N'));
    assert_eq!(app.search.current_result, 0);
}

#[test]
fn esc_clears_highlights_then_leaves_the_instruction_list() {
    let mut app = open_disassembly();
    press(&mut app, Key::Right);
    assert_eq!(app.disasm_subfocus, DisasmSubFocus::Instructions);
    press(&mut app, Key::Char('/'));
    type_text(&mut app, "nop");
    press(&mut app, Key::Enter);
    assert_eq!(app.search.results, vec![2]);
    press(&mut app, Key::Esc);
    assert!(app.search.query.is_empty());
    assert!(app.search.results.is_empty());
    assert_eq!(app.disasm_subfocus, DisasmSubFocus::Instructions);
    press(&mut app, Key::Esc);
    assert_eq!(app.disasm_subfocus, DisasmSubFocus::FuncList);
}

#[test]
fn function_list_moves_and_stops_at_its_ends() {
    let mut app = open_disassembly();
    press(&mut app, Key::Down);
    assert_eq!(app.disasm.selected_function, 1);
    press(&mut app, Key::Down);
    assert_eq!(app.disasm.selected_function, 1);
    press(&mut app, Key::Up);
    press(&mut app, Key::Up);
    assert_eq!(app.disasm.selected_function, 0);
}

fn select_rodata(app: &mut App) {
    for _ in 0..8 {
        press(app, Key::Down);
    }
    assert_eq!(app.tree.selected_node, Some(TreeNodeType::SectionBody { index: 2 }));
    assert_eq!(app.current_view, DetailView::Hexdump);
}

#[test]
fn hexdump_search_finds_text_in_any_case() {
    let mut app = new_app();
    select_rodata(&mut app);
    press(&mut app, Key::Tab);
    press(&mut app, Key::Char('/'));
    type_text(&mut app, "world");
    press(&mut app, Key::Enter);
    assert_eq!(app.search.results, vec![3]);
    assert_eq!(app.hexdump.cursor_offset, 3);
    assert_eq!(app.hexdump.scroll, 0);
}

#[test]
fn hexdump_address_search_moves_the_cursor() {
    let mut app = new_app();
    select_rodata(&mut app);
    press(&mut app, Key::Tab);
    press(&mut app, Key::Char('/'));
    type_text(&mut app, "0X2005");
    press(&mut app, Key::Enter);
    assert_eq!(app.search.results, vec![5]);
    assert_eq!(app.hexdump.cursor_offset, 5);
    press(&mut app, Key::Char('/'));
    type_text(&mut app, "0x3000");
    press(&mut app, Key::Enter);
    assert!(app.search.results.is_empty());
    assert_eq!(app.search.no_matches_timer, 120);
    app.search.tick();
    assert_eq!(app.search.no_matches_timer, 119);
}

#[test]
fn hexdump_cursor_keys() {
    let mut app = new_app();
    select_rodata(&mut app);
    press(&mut app, Key::Tab);
    press(&mut app, Key::Char('l'));
    press(&mut app, Key::Right);
    assert_eq!(app.hexdump.cursor_offset, 2);
    press(&mut app, Key::Char('h'));
    assert_eq!(app.hexdump.cursor_offset, 1);
    press(&mut app, Key::Left);
    press(&mut app, Key::Left);
    assert_eq!(app.hexdump.cursor_offset, 0);
    press(&mut app, Key::Down);
    assert_eq!(app.hexdump.cursor_offset, 16);
    press(&mut app, Key::Up);
    assert_eq!(app.hexdump.cursor_offset, 0);
    press(&mut app, Key::Char('G'));
    assert_eq!(app.hexdump.cursor_offset, 8);
    assert_eq!(app.hexdump.scroll, usize::MAX);
    press(&mut app, Key::Char('g'));
    assert!(app.pending_g);
    press(&mut app, Key::Char('g'));
    assert!(!app.pending_g);
    assert_eq!(app.hexdump.scroll, 0);
    assert_eq!(app.hexdump.cursor_offset, 0);
}

#[test]
fn overview_search_highlights_the_line() {
    let mut app = new_app();
    press(&mut app, Key::Char('/'));
    type_text(&mut app, "machine");
    press(&mut app, Key::Enter);
    assert_eq!(app.search.results, vec![7]);
    assert_eq!(app.overview.selected_line, 7);
    assert_eq!(app.focus, Focus::Detail);
}

#[test]
fn prompt_editing() {
    let mut app = new_app();
    press(&mut app, Key::Char('/'));
    assert!(app.search.active);
    type_text(&mut app, "ab");
    press(&mut app, Key::Backspace);
    assert_eq!(app.search.input, "a");
    assert_eq!(app.search.prompt(), "/a_");
    press(&mut app, Key::Esc);
    assert!(!app.search.active);
    assert!(app.search.input.is_empty());
    assert_eq!(app.focus, Focus::Tree);
}

#[test]
fn empty_search_only_sets_the_query() {
    let mut app = open_disassembly();
    press(&mut app, Key::Char('/'));
    type_text(&mut app, "ret");
    press(&mut app, Key::Enter);
    assert_eq!(app.search.results, vec![1, 3]);
    press(&mut app, Key::Char('/'));
    press(&mut app, Key::Enter);
    assert!(app.search.query.is_empty());
    assert_eq!(app.search.results, vec![1, 3]);
}

#[test]
fn layout_map_leads_to_a_section_and_back() {
    let mut app = new_app();
    press(&mut app, Key::Down);
    press(&mut app, Key::Tab);
    let regions = build_regions(&app.data);
    assert_eq!(regions.len(), 8);
    app.layout_map.fit(regions.len(), 20);
    for _ in 0..3 {
        press(&mut app, Key::Down);
    }
    assert_eq!(app.layout_map.selected_row, 3);
    press(&mut app, Key::Enter);
    assert_eq!(app.tree.selected_node, Some(TreeNodeType::SectionBody { index: 1 }));
    assert_eq!(app.current_view, DetailView::Disassembly);
    assert_eq!(app.prev_view, Some(DetailView::LayoutMap));
    press(&mut app, Key::Esc);
    assert_eq!(app.current_view, DetailView::LayoutMap);
    assert_eq!(app.prev_view, None);
    assert_eq!(app.tree.selected_node, Some(TreeNodeType::LayoutMap));
}

#[test]
fn layout_map_search_selects_the_first_match() {
    let mut app = new_app();
    press(&mut app, Key::Down);
    press(&mut app, Key::Char('/'));
    type_text(&mut app, "UNMAPPED");
    press(&mut app, Key::Enter);
    assert_eq!(app.search.results, vec![2, 4, 6]);
    assert_eq!(app.layout_map.selected_row, 2);
}

#[test]
fn help_opens_and_closes() {
    let mut app = new_app();
    press(&mut app, Key::Char('?'));
    assert!(app.show_help);
    press(&mut app, Key::Down);
    assert_eq!(app.tree.selected, Some(0));
    press(&mut app, Key::Esc);
    assert!(!app.show_help);
    assert_eq!(app.current_view, DetailView::Overview);
    press(&mut app, Key::Char('H'));
    assert!(app.show_help);
    press(&mut app, Key::Char('H'));
    assert!(!app.show_help);
    press(&mut app, Key::Tab);
    press(&mut app, Key::Char('H'));
    assert!(app.show_help);
    press(&mut app, Key::Char('h'));
    assert!(!app.show_help);
}

#[test]
fn tab_twice_returns_the_focus() {
    let mut app = new_app();
    press(&mut app, Key::Tab);
    assert_eq!(app.focus, Focus::Detail);
    press(&mut app, Key::Tab);
    assert_eq!(app.focus, Focus::Tree);
}

#[test]
fn collapsing_and_expanding_a_group() {
    let mut app = new_app();
    for _ in 0..5 {
        press(&mut app, Key::Down);
    }
    assert_eq!(app.tree.selected_node, Some(TreeNodeType::SectionsGroup));
    press(&mut app, Key::Left);
    assert_eq!(app.tree.collect_flat().len(), 10);
    assert!(!app.tree.nodes[5].expanded);
    press(&mut app, Key::Left);
    assert_eq!(app.tree.collect_flat().len(), 10);
    press(&mut app, Key::Right);
    assert_eq!(app.tree.collect_flat().len(), 13);
    press(&mut app, Key::Right);
    assert_eq!(app.tree.collect_flat().len(), 13);
    press(&mut app, Key::Enter);
    assert_eq!(app.tree.collect_flat().len(), 13);
    assert!(app.tree.nodes[5].expanded);
    press(&mut app, Key::Left);
    assert_eq!(app.tree.collect_flat().len(), 10);
    press(&mut app, Key::Enter);
    assert_eq!(app.tree.collect_flat().len(), 13);
    assert_eq!(app.tree.selected_node, Some(TreeNodeType::SectionsGroup));
}

#[test]
fn scrolling_a_line_panel() {
    let mut app = new_app();
    press(&mut app, Key::Tab);
    press(&mut app, Key::Char('d'));
    assert_eq!(app.overview.selected_line, 10);
    press(&mut app, Key::Char(' '));
    assert_eq!(app.overview.selected_line, 30);
    press(&mut app, Key::Char('b'));
    press(&mut app, Key::Char('u'));
    assert_eq!(app.overview.selected_line, 0);
    press(&mut app, Key::PageDown);
    assert_eq!(app.overview.selected_line, 20);
    press(&mut app, Key::PageUp);
    assert_eq!(app.overview.selected_line, 0);
    press(&mut app, Key::End);
    assert_eq!(app.overview.selected_line, usize::MAX);
    assert!(key_would_overflow(&app, Key::Down));
    assert!(key_would_overflow(&app, Key::Char('d')));
    assert!(!key_would_overflow(&app, Key::Up));
    press(&mut app, Key::Home);
    assert_eq!(app.overview.selected_line, 0);
}

#[test]
fn quit_key() {
    let mut app = new_app();
    press(&mut app, Key::Char('q'));
    assert!(app.should_quit);
}

#[test]
fn other_keys_clear_a_pending_g() {
    let mut app = new_app();
    press(&mut app, Key::Tab);
    press(&mut app, Key::Char('g'));
    assert!(app.pending_g);
    press(&mut app, Key::Other);
    assert!(!app.pending_g);
}

#[test]
fn tree_down_then_up_returns_to_the_row() {
    let mut app = new_app();
    press(&mut app, Key::Down);
    press(&mut app, Key::Down);
    assert_eq!(app.tree.selected, Some(2));
    press(&mut app, Key::Up);
    press(&mut app, Key::Up);
    assert_eq!(app.tree.selected, Some(0));
    assert_eq!(app.tree.selected_node, Some(TreeNodeType::Overview));
    assert_eq!(app.current_view, DetailView::Overview);
    press(&mut app, Key::Up);
    assert_eq!(app.tree.selected, Some(0));
}

#[test]
fn h_and_l_collapse_and_expand_in_the_tree() {
    let mut app = new_app();
    for _ in 0..5 {
        press(&mut app, Key::Down);
    }
    assert_eq!(app.tree.selected_node, Some(TreeNodeType::SectionsGroup));
    press(&mut app, Key::Char('l'));
    assert!(app.tree.nodes[5].expanded);
    press(&mut app, Key::Char('h'));
    assert!(!app.tree.nodes[5].expanded);
    press(&mut app, Key::Char('h'));
    assert!(!app.tree.nodes[5].expanded);
    press(&mut app, Key::Char('l'));
    assert!(app.tree.nodes[5].expanded);
    assert_eq!(app.tree.selected_node, Some(TreeNodeType::SectionsGroup));
}

#[test]
fn only_code_sections_must_end_within_64_bits() {
    let mut data = sample_data();
    data.sections[2].addr = u64::MAX - 2;
    assert!(data_fits(&data));
    let mut data = sample_data();
    data.sections[1].addr = u64::MAX - 2;
    assert!(!data_fits(&data));
}
