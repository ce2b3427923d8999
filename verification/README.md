# elf_insight

A terminal viewer for ELF files: a navigation tree (overview, ELF header,
program and section headers, sections, segments, symbols) beside a detail
panel that shows a readelf-like overview, a map of the file's layout,
structured fields, a hexdump, x86-64 disassembly split into functions, and a
search over whatever panel is shown.

## Layout

- `src/` is the library, verified with Verus.
  - `elf/` reads a file's tables through goblin (`reader.rs`) into the
    viewer's model (`parser.rs`, `names.rs`), and decodes code through
    iced-x86 into instructions grouped into functions (`disasm.rs`).
  - `app.rs` holds the viewer's state, its invariant and the navigation
    tree; `app/keys.rs` is the key handler (one step of the state machine
    per key) and `app/navigate.rs` the panel and scrolling moves.
  - `ui/` computes what each panel shows: the tree's rows, the overview's
    lines, the layout regions, the info lines, hexdump rows, disassembly
    lines, extracted strings and the search.
  - `text.rs` and `sort.rs` hold text formatting and a stable sort.
- `app/` is the program around it: reading the file, the terminal loop
  (crossterm) and drawing (ratatui).
- `tests/` runs the library on concrete values.
