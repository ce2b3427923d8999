use elf_insight::elf::disasm::{
    disassemble_section, identify_functions, merge_symbols_with_functions, DisasmInstruction,
    FunctionInfo,
};
use elf_insight::elf::parser::{SymbolInfo, SymbolType};
use elf_insight::ui::disasm::{function_label_string, insn_line_string, title, DisasmState};

fn insn(address: u64, length: usize, mnemonic: &str) -> DisasmInstruction {
    DisasmInstruction {
        address,
        offset: 0,
        length,
        bytes: vec![0; length],
        mnemonic: mnemonic.to_string(),
        operands: String::new(),
    }
}

fn symbol(name: &str, addr: u64, ty: SymbolType) -> SymbolInfo {
    SymbolInfo {
        name: name.to_string(),
        addr,
        size: 0,
        ty,
        bind: "GLOBAL".to_string(),
        vis: "DEFAULT".to_string(),
        shndx: 1,
    }
}

#[test]
fn disassembles_one_instruction_after_another() {
    let r = disassemble_section(&vec![0x55, 0xc3, 0x90, 0xc3], 0x1000);
    assert_eq!(r.bitness, 64);
    let m: Vec<(u64, usize, &str, &str)> = r
        .all_instructions
        .iter()
        .map(|i| (i.address, i.length, i.mnemonic.as_str(), i.operands.as_str()))
        .collect();
    assert_eq!(
        m,
        vec![(0x1000, 1, "push", "rbp"), (0x1001, 1, "ret", ""), (0x1002, 1, "nop", ""), (0x1003, 1, "ret", "")]
    );
    assert_eq!(r.all_instructions[0].bytes, vec![0x55]);
    assert_eq!(r.all_instructions[3].offset, 3);
    assert_eq!(r.functions.len(), 2);
    assert_eq!(r.functions[0].name, "sub_1000");
    assert_eq!(r.functions[1].name, "sub_1002");
    assert_eq!(r.functions[1].end_addr, 0x1004);
}

#[test]
fn multi_byte_instruction_lengths() {
    let r = disassemble_section(&vec![0x48, 0x89, 0xe5, 0xc3], 0x400000);
    assert_eq!(r.all_instructions.len(), 2);
    assert_eq!(r.all_instructions[0].length, 3);
    assert_eq!(r.all_instructions[0].mnemonic, "mov");
    assert_eq!(r.all_instructions[0].operands, "rbp,rsp");
    assert_eq!(r.all_instructions[1].address, 0x400003);
}

#[test]
fn a_cut_off_instruction_takes_the_rest() {
    let r = disassemble_section(&vec![0x90, 0x48], 0);
    assert_eq!(r.all_instructions.len(), 2);
    assert_eq!(r.all_instructions[1].length, 1);
    assert_eq!(r.functions.len(), 1);
    assert_eq!(r.functions[0].end_addr, 2);
}

#[test]
fn empty_code_has_no_functions() {
    let r = disassemble_section(&vec![], 0x1000);
    assert!(r.all_instructions.is_empty());
    assert!(r.functions.is_empty());
}

#[test]
fn functions_split_after_each_return() {
    let insns = vec![
        insn(0x10, 2, "push"),
        insn(0x12, 1, "ret"),
        insn(0x13, 1, "retf"),
        insn(0x14, 4, "mov"),
        insn(0x18, 1, "iretd"),
        insn(0x19, 1, "nop"),
    ];
    let fs = identify_functions(&insns);
    let shape: Vec<(String, u64, u64, usize)> =
        fs.iter().map(|f| (f.name.clone(), f.start_addr, f.end_addr, f.instructions.len())).collect();
    assert_eq!(
        shape,
        vec![
            ("sub_10".to_string(), 0x10, 0x13, 2),
            ("sub_13".to_string(), 0x13, 0x14, 1),
            ("sub_14".to_string(), 0x14, 0x19, 2),
            ("sub_19".to_string(), 0x19, 0x1a, 1),
        ]
    );
}

#[test]
fn symbols_name_functions_and_add_new_ones() {
    let insns = vec![insn(0x10, 1, "nop"), insn(0x11, 1, "ret"), insn(0x12, 1, "nop"), insn(0x13, 1, "ret")];
    let fs = identify_functions(&insns);
    let symbols = vec![
        symbol("data", 0x10, SymbolType::Object),
        symbol("second", 0x12, SymbolType::Function),
        symbol("inner", 0x11, SymbolType::Function),
        symbol("first", 0x10, SymbolType::Function),
        symbol("outside", 0x100, SymbolType::Function),
    ];
    let merged: Vec<FunctionInfo> = merge_symbols_with_functions(&symbols, fs);
    let shape: Vec<(String, u64, u64, usize)> =
        merged.iter().map(|f| (f.name.clone(), f.start_addr, f.end_addr, f.instructions.len())).collect();
    assert_eq!(
        shape,
        vec![
            ("first".to_string(), 0x10, 0x12, 2),
            ("inner".to_string(), 0x11, 0x14, 3),
            ("second".to_string(), 0x12, 0x14, 2),
        ]
    );
}

#[test]
fn instruction_line_and_labels() {
    let r = disassemble_section(&vec![0x48, 0x89, 0xe5, 0xc3], 0x1000);
    assert_eq!(
        insn_line_string(&r.all_instructions[0]),
        "0x00001000: 48 89 e5              mov rbp,rsp"
    );
    assert_eq!(function_label_string(&r.functions[0]), " sub_1000 (0x1000)");
    assert_eq!(title(&r.functions[0], 1), "sub_1000 (0x1000-0x1004) [Disasm] 0x1003");
    assert_eq!(title(&r.functions[0], 9), "sub_1000 (0x1000-0x1004) [Disasm] 0x1000");
}

#[test]
fn instruction_window_keeps_the_cursor_in_view() {
    let mut s = DisasmState { selected_function: 0, scroll: 50 };
    let w = s.fit_window(100, 10);
    assert_eq!(s.scroll, 50);
    assert_eq!(w, 45);
    let mut s = DisasmState { selected_function: 0, scroll: 500 };
    let w = s.fit_window(100, 10);
    assert_eq!(s.scroll, 99);
    assert_eq!(w, 90);
    let mut s = DisasmState { selected_function: 0, scroll: 3 };
    let w = s.fit_window(0, 10);
    assert_eq!(s.scroll, 0);
    assert_eq!(w, 0);
    let mut s = DisasmState { selected_function: 2, scroll: 2 };
    let w = s.fit_window(5, 10);
    assert_eq!((s.selected_function, s.scroll, w), (2, 2, 0));
}

#[test]
fn a_called_instruction_begins_a_function() {
    let code = vec![0xe8, 0x03, 0x00, 0x00, 0x00, 0x90, 0x90, 0x90, 0x55, 0xc3];
    let r = disassemble_section(&code, 0x1000);
    assert_eq!(r.all_instructions[0].mnemonic, "call");
    assert_eq!(r.all_instructions[0].operands, "0000000000001008h");
    let shape: Vec<(String, u64, u64, usize)> = r
        .functions
        .iter()
        .map(|f| (f.name.clone(), f.start_addr, f.end_addr, f.instructions.len()))
        .collect();
    assert_eq!(
        shape,
        vec![("sub_1000".to_string(), 0x1000, 0x1008, 4), ("sub_1008".to_string(), 0x1008, 0x100a, 2)]
    );
}

#[test]
fn functions_split_before_call_targets() {
    let mut call = insn(0x10, 5, "call");
    call.operands = "0000000000000017h".to_string();
    let mut far = insn(0x15, 2, "call");
    far.operands = "qword ptr [rax]".to_string();
    let insns = vec![call, far, insn(0x17, 1, "push"), insn(0x18, 1, "ret"), insn(0x19, 1, "nop")];
    let fs = identify_functions(&insns);
    let shape: Vec<(String, u64, u64, usize)> =
        fs.iter().map(|f| (f.name.clone(), f.start_addr, f.end_addr, f.instructions.len())).collect();
    assert_eq!(
        shape,
        vec![
            ("sub_10".to_string(), 0x10, 0x17, 2),
            ("sub_17".to_string(), 0x17, 0x19, 2),
            ("sub_19".to_string(), 0x19, 0x1a, 1),
        ]
    );
}
