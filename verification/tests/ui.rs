use elf_insight::app::keys::{handle_key, Key};
use elf_insight::app::navigate::available_modes;
use elf_insight::app::App;
use elf_insight::app::SectionViewMode;
use elf_insight::elf::parser::{ElfData, SectionInfo, SegmentInfo, SymbolInfo, SymbolType};
use elf_insight::ui::hexdump::{hex_row, title, HexCursor, HexdumpState};
use elf_insight::ui::info::{info_can_render, info_lines, render_segment, render_symbol};
use elf_insight::ui::layout_map::{build_regions, region_label, LayoutMapState, RegionColor, LayoutTarget};
use elf_insight::ui::overview::{overview_display_strings, overview_search_lines, OverviewState};
use elf_insight::ui::tree::row_text_string;

fn section(name: &str, index: usize, addr: u64, offset: u64, flags: &str, data: Vec<u8>) -> SectionInfo {
    SectionInfo {
        name: name.to_string(),
        index,
        addr,
        offset,
        size: data.len() as u64,
        ty: "PROGBITS".to_string(),
        flags: flags.to_string(),
        data,
    }
}

fn sample_data() -> ElfData {
    let mut raw = vec![0u8; 0x240];
    raw[0..7].copy_from_slice(&[0x7f, b'E', b'L', b'F', 2, 1, 1]);
    let text = vec![0x55, 0xc3, 0x90, 0xc3];
    raw[0x100..0x104].copy_from_slice(&text);
    let ro = b"hi\0World\0".to_vec();
    raw[0x110..0x119].copy_from_slice(&ro);
    let mut bss = section(".bss", 3, 0x3000, 0, "WA", vec![]);
    bss.size = 0x20;
    bss.ty = "NOBITS".to_string();
    ElfData {
        file_path: "sample".to_string(),
        raw_bytes: raw,
        class: 2,
        data: 1,
        os_abi: "UNIX - System V".to_string(),
        abi_version: 0,
        elf_type: "DYN (Shared object)".to_string(),
        is_pie: true,
        machine: "AMD x86-64".to_string(),
        version: 1,
        entry: 0x1000,
        phoff: 0x40,
        shoff: 0x140,
        flags: 0,
        ehsize: 64,
        phentsize: 56,
        phnum: 1,
        shentsize: 64,
        shnum: 4,
        shstrndx: 0,
        sections: vec![
            section("", 0, 0, 0, "-", vec![]),
            section(".text", 1, 0x1000, 0x100, "AX", text),
            section(".rodata", 2, 0x1800, 0x110, "A", ro),
            bss,
        ],
        segments: vec![SegmentInfo {
            index: 0,
            ty: "LOAD".to_string(),
            offset: 0,
            vaddr: 0x1000,
            paddr: 0x1000,
            filesz: 0x200,
            memsz: 0x1100,
            flags: "RE".to_string(),
            align: 0x1000,
        }],
        symbols: vec![SymbolInfo {
            name: "main".to_string(),
            addr: 0x1002,
            size: 2,
            ty: SymbolType::Function,
            bind: "GLOBAL".to_string(),
            vis: "DEFAULT".to_string(),
            shndx: 1,
        }],
    }
}

#[test]
fn overview_lines() {
    let data = sample_data();
    let lines = overview_search_lines(&data);
    assert_eq!(lines[0], "ELF Header");
    assert_eq!(lines[1], "  Magic:   [7f, 45, 4c, 46, 02, 01, 01, 00, 00, 00, 00, 00, 00, 00, 00, 00]");
    assert_eq!(lines[2], "  Class:   ELF64");
    assert_eq!(lines[3], "  Data:    2's complement, little endian");
    assert_eq!(lines[4], "  Version: 1 (current)");
    assert_eq!(lines[6], "  Type:    DYN (Shared object) (PIE executable)");
    assert_eq!(lines[8], "  Entry:   0x1000");
    assert_eq!(lines[9], "  PH off:  0x40 (1 entries, 56 bytes each)");
    assert_eq!(lines[12], "");
    assert_eq!(lines[13], "[Nr] Name                  Type       Address    Offset    Size      Flags");
    assert_eq!(lines[15], "[ 1] .text                PROGBITS   0x00001000 0x000100 0x000004 AX ");
    assert_eq!(lines[18], "");
    assert_eq!(
        lines[19],
        "Program Headers:  Type       Offset   VirtAddr  PhysAddr  FileSiz  MemSiz   Flg Align"
    );
    assert_eq!(
        lines[20],
        "  LOAD           0x000000 0x00001000 0x00001000 0x000200 0x001100 RE  0x1000"
    );
    assert_eq!(lines.len(), 21);
}

#[test]
fn overview_display_names_unknown_classes() {
    let mut data = sample_data();
    data.class = 7;
    data.data = 9;
    let shown = overview_display_strings(&data);
    assert_eq!(shown[2], "  Class:   Unknown");
    assert_eq!(shown[3], "  Data:    Unknown");
    let searched = overview_search_lines(&data);
    assert_eq!(searched[2], "  Class:   ELF32");
    assert_eq!(searched[3], "  Data:    2's complement, big endian");
}

#[test]
fn overview_scroll_stays_within_the_text() {
    let mut s = OverviewState { scroll: 100, selected_line: 4 };
    s.clamp_scroll(30, 12);
    assert_eq!((s.scroll, s.selected_line), (20, 4));
    let mut s = OverviewState { scroll: 3, selected_line: 0 };
    s.clamp_scroll(30, 12);
    assert_eq!(s.scroll, 3);
    let mut s = OverviewState { scroll: 3, selected_line: 0 };
    s.clamp_scroll(5, 40);
    assert_eq!(s.scroll, 0);
}

#[test]
fn info_for_a_segment_lists_mapped_sections_by_address() {
    let app = App::new(sample_data());
    let lines = render_segment(&app, 0);
    assert_eq!(lines[0], "Type:       LOAD");
    assert_eq!(lines[2], "VirtAddr:   0x0000000000001000");
    assert_eq!(lines[3], "VirtSize:   0x1100 (4352 bytes)");
    assert_eq!(lines[7], "");
    assert_eq!(lines[8], "Mapped sections:");
    assert_eq!(lines[9], "  [ 1] .text                0x00001000-0x00001004");
    assert_eq!(lines[10], "  [ 2] .rodata              0x00001800-0x00001809");
    assert_eq!(lines.len(), 11);
    assert_eq!(render_segment(&app, 4), vec!["Segment not found".to_string()]);
}

#[test]
fn info_for_a_symbol() {
    let app = App::new(sample_data());
    let lines = render_symbol(&app, 0);
    assert_eq!(
        lines,
        vec![
            "Name:      main",
            "Type:      FUNC",
            "Bind:      GLOBAL",
            "Vis:       DEFAULT",
            "Value:     0x0000000000001002",
            "Size:      2 bytes",
            "Shndx:     1",
        ]
    );
}

#[test]
fn info_follows_the_selected_node() {
    let mut app = App::new(sample_data());
    assert!(info_can_render(&app));
    assert_eq!(info_lines(&app), vec!["Select a node to view details".to_string()]);
    handle_key(&mut app, Key::Down);
    handle_key(&mut app, Key::Down);
    let lines = info_lines(&app);
    assert_eq!(lines[0], "Magic:         [7f, 45, 4c, 46, 02, 01, 01, 00, 00, 00, 00, 00, 00, 00, 00, 00]");
    assert_eq!(lines[5], "ABI Version:   0");
    assert_eq!(lines[10], "PH offset:     0x40 (1 entries, 56 bytes each)");
    assert_eq!(lines[13], "EH size:       64 bytes");
    handle_key(&mut app, Key::Down);
    let lines = info_lines(&app);
    assert_eq!(lines[0], "Program Headers: 1 entries at offset 0x40");
    assert_eq!(lines[1], "Entry size: 56 bytes");
    assert_eq!(lines[3], "Idx    Type           Offset     VirtAddr   PhysAddr   FileSiz    MemSiz     Flags  Align ");
    assert_eq!(lines[4], "0      LOAD           0x00000000 0x00001000 0x00001000 0x00000200 0x00001100 RE     0x1000");
    handle_key(&mut app, Key::Down);
    let lines = info_lines(&app);
    assert_eq!(lines[3], "Idx  Name                 Type         Addr         Offset     Size       Flags ");
    assert_eq!(lines[5], "1    .text                PROGBITS     0x0000001000 0x00000100 0x00000004 AX    ");
}

#[test]
fn section_modes() {
    let data = sample_data();
    assert_eq!(available_modes(&data.sections[0]), vec![SectionViewMode::Info]);
    assert_eq!(
        available_modes(&data.sections[1]),
        vec![SectionViewMode::Info, SectionViewMode::Hexdump, SectionViewMode::Disassembly]
    );
    let mut s = section(".dynstr", 5, 0x10, 0x10, "A", vec![1]);
    assert_eq!(
        available_modes(&s),
        vec![SectionViewMode::Info, SectionViewMode::Hexdump, SectionViewMode::Strings]
    );
    s.name = ".dynamic".to_string();
    assert_eq!(
        available_modes(&s),
        vec![SectionViewMode::Info, SectionViewMode::Hexdump, SectionViewMode::Dynamic]
    );
}

#[test]
fn hexdump_rows_and_title() {
    let data: Vec<u8> = (0u8..20).map(|b| b + 0x3e).collect();
    let row = hex_row(&data, 1, 0x2000, 17);
    let texts: Vec<(String, bool)> = row;
    assert_eq!(texts[0], ("0x00002010 \u{2502} ".to_string(), false));
    assert_eq!(texts[1], ("4e".to_string(), false));
    assert_eq!(texts[3], ("4f".to_string(), true));
    assert_eq!(texts[9], ("   ".to_string(), false));
    let joined: String = texts.iter().map(|(t, _)| t.as_str()).collect();
    assert_eq!(
        joined,
        "0x00002010 \u{2502} 4e 4f 50 51                                      \u{2502} NOPQ            "
    );
    let s = section(".text", 1, 0x1000, 0x100, "AX", vec![0; 32]);
    assert_eq!(title(&s, 5), ".text - 0x1000-0x1020 [Hexdump] Info|Hexdump|Disasm  0x1005");
}

#[test]
fn hexdump_fit_keeps_the_cursor_in_view() {
    let mut h = HexdumpState::new();
    assert_eq!(h.cursor_mode, HexCursor::Hex);
    h.cursor_offset = 1000;
    h.fit(100, 3);
    assert_eq!(h.cursor_offset, 99);
    assert_eq!(h.scroll, 4);
    h.cursor_offset = 0;
    h.fit(100, 3);
    assert_eq!(h.scroll, 0);
    h.cursor_offset = 50;
    h.fit(100, 3);
    assert_eq!(h.scroll, 1);
}

#[test]
fn layout_regions_tile_the_file() {
    let data = sample_data();
    let regions = build_regions(&data);
    let mut at = 0u64;
    for r in &regions {
        assert_eq!(r.offset, at);
        at = r.offset + r.size;
    }
    assert_eq!(at, 0x240);
    assert_eq!(regions[0].label, "ELF Header");
    assert_eq!(regions[1].label, "Program Headers (1 entries)");
    assert_eq!(regions[2].label, "[unmapped] (0x78-0x100)");
    assert_eq!(regions[2].color, RegionColor::Gap);
    assert_eq!(regions[3].target, Some(LayoutTarget::SectionBody(1)));
    assert_eq!(regions[3].color, RegionColor::Code);
    assert_eq!(regions[5].color, RegionColor::Data);
    assert_eq!(regions[7].label, "Section Headers (4 entries)");
}

#[test]
fn layout_labels_and_fit() {
    assert_eq!(region_label("short"), "short");
    let long = "x".repeat(45);
    assert_eq!(region_label(&long), format!("{}...", "x".repeat(37)));
    let mut m = LayoutMapState::new();
    m.selected_row = 30;
    m.fit(10, 5);
    assert_eq!(m.region_count, 10);
    assert_eq!(m.selected_row, 9);
    assert_eq!(m.scroll, 7);
    m.selected_row = 0;
    m.fit(10, 5);
    assert_eq!(m.scroll, 2);
}

#[test]
fn tree_rows_are_indented_and_marked() {
    let app = App::new(sample_data());
    let rows = app.tree.collect_flat();
    assert_eq!(row_text_string(&rows[0]), "  Overview");
    assert_eq!(row_text_string(&rows[5]), "\u{25bc} Sections (4)");
    assert_eq!(row_text_string(&rows[6]), "    [0] ");
}
