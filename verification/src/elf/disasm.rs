//! Disassembly bookkeeping: decoded instructions, their grouping into
//! functions, and the naming of functions after symbols.

use vstd::prelude::*;
use vstd::slice::{slice_subrange, slice_to_vec};

use iced_x86::Formatter;

use crate::elf::parser::{symbols_view, SectionInfo, SectionView, SymbolInfo, SymbolType, SymbolView};
use crate::sort::{stable_sort_by_key, stably_sorted, SortKey};
use crate::text::{hex_seq, push_hex, trim, trim_ws};
use crate::ui::search::{parse_hex, parse_hex_u64};

verus! {

/// One decoded instruction.
#[derive(Debug, Clone)]
pub struct DisasmInstruction {
    pub address: u64,
    pub offset: usize,
    pub length: usize,
    pub bytes: Vec<u8>,
    pub mnemonic: String,
    pub operands: String,
}

/// A run of instructions shown as one function.
#[derive(Debug, Clone)]
pub struct FunctionInfo {
    pub name: String,
    pub start_addr: u64,
    pub end_addr: u64,
    pub instructions: Vec<DisasmInstruction>,
}

/// The disassembly of one section.
#[derive(Debug, Clone)]
pub struct DisasmResult {
    pub functions: Vec<FunctionInfo>,
    pub all_instructions: Vec<DisasmInstruction>,
    pub bitness: u32,
}

/// The abstract value of a `DisasmInstruction`.
pub struct InsnView {
    pub address: u64,
    pub offset: usize,
    pub length: usize,
    pub bytes: Seq<u8>,
    pub mnemonic: Seq<char>,
    pub operands: Seq<char>,
}

/// The abstract value of a `FunctionInfo`.
pub struct FunctionView {
    pub name: Seq<char>,
    pub start_addr: u64,
    pub end_addr: u64,
    pub instructions: Seq<InsnView>,
}

impl View for DisasmInstruction {
    type V = InsnView;

    open spec fn view(&self) -> InsnView {
        InsnView {
            address: self.address,
            offset: self.offset,
            length: self.length,
            bytes: self.bytes@,
            mnemonic: self.mnemonic@,
            operands: self.operands@,
        }
    }
}

/// The abstract values of a list of instructions.
pub open spec fn insns_view(v: Seq<DisasmInstruction>) -> Seq<InsnView> {
    v.map_values(|i: DisasmInstruction| i@)
}

impl View for FunctionInfo {
    type V = FunctionView;

    open spec fn view(&self) -> FunctionView {
        FunctionView {
            name: self.name@,
            start_addr: self.start_addr,
            end_addr: self.end_addr,
            instructions: insns_view(self.instructions@),
        }
    }
}

/// The abstract values of a list of functions.
pub open spec fn functions_view(v: Seq<FunctionInfo>) -> Seq<FunctionView> {
    v.map_values(|f: FunctionInfo| f@)
}

/// The abstract value of a `DisasmResult`.
pub struct DisasmView {
    pub functions: Seq<FunctionView>,
    pub all_instructions: Seq<InsnView>,
    pub bitness: u32,
}

impl View for DisasmResult {
    type V = DisasmView;

    open spec fn view(&self) -> DisasmView {
        DisasmView {
            functions: functions_view(self.functions@),
            all_instructions: insns_view(self.all_instructions@),
            bitness: self.bitness,
        }
    }
}

/// The address just past an instruction.
pub open spec fn insn_end(i: InsnView) -> int {
    i.address + i.length
}

/// The address just past an instruction fits in 64 bits.
pub open spec fn insn_fits(i: InsnView) -> bool {
    insn_end(i) <= u64::MAX
}

/// Every instruction's end address fits in 64 bits.
pub open spec fn insns_fit(s: Seq<InsnView>) -> bool {
    forall|k: int| 0 <= k < s.len() ==> insn_fits(#[trigger] s[k])
}

/// A mnemonic that returns from a function.
pub open spec fn is_ret_mnemonic(m: Seq<char>) -> bool {
    m == "ret"@ || m == "retf"@ || m == "iret"@ || m == "iretd"@
}

/// The name given to a function found at `addr`: `sub_` and the address in hex.
pub open spec fn sub_name(addr: u64) -> Seq<char> {
    seq!['s', 'u', 'b', '_'] + hex_seq(addr as nat)
}

/// The instruction lists of a list of functions.
pub open spec fn groups(fs: Seq<FunctionView>) -> Seq<Seq<InsnView>> {
    fs.map_values(|f: FunctionView| f.instructions)
}

/// Where a direct `call` goes: its operand is the target address in
/// hexadecimal followed by `h`, as the Intel formatter writes it. Other
/// instructions (and indirect calls) have none.
pub open spec fn call_target(i: InsnView) -> Option<u64> {
    let n = i.operands.len();
    if i.mnemonic == "call"@ && n >= 1 && i.operands[n - 1] == 'h' {
        parse_hex_u64(i.operands.subrange(0, n - 1))
    } else {
        None
    }
}

/// Some instruction of `insns` calls `addr` directly.
pub open spec fn is_call_target(insns: Seq<InsnView>, addr: u64) -> bool {
    exists|k: int| 0 <= k < insns.len() && #[trigger] call_target(insns[k]) == Some(addr)
}

/// The functions cut the instruction stream after each return and before
/// each instruction that some instruction of the stream calls: read in order
/// their instructions are exactly `insns`, none is empty, a return stands
/// only last in a function, a called instruction only first, and each
/// function but the last ends with a return or is followed by a function
/// that starts with a called instruction.
pub open spec fn splits_functions(insns: Seq<InsnView>, fs: Seq<FunctionView>) -> bool {
    &&& groups(fs).flatten() == insns
    &&& forall|j: int| 0 <= j < fs.len() ==> #[trigger] fs[j].instructions.len() > 0
    &&& forall|j: int, k: int|
        0 <= j < fs.len() && 0 <= k < fs[j].instructions.len() - 1 ==> !is_ret_mnemonic(
            #[trigger] fs[j].instructions[k].mnemonic,
        )
    &&& forall|j: int, k: int|
        0 <= j < fs.len() && 0 < k < fs[j].instructions.len() ==> !is_call_target(
            insns,
            #[trigger] fs[j].instructions[k].address,
        )
    &&& forall|j: int|
        0 < j < fs.len() ==> is_ret_mnemonic(fs[j - 1].instructions.last().mnemonic) || is_call_target(
            insns,
            #[trigger] fs[j].instructions[0].address,
        )
}

/// Each function ends where its last instruction ends. The first starts at
/// the first instruction; one that follows a return starts where the
/// function before it ended, one cut before a called instruction at that
/// instruction. Each is named after its start address.
pub open spec fn function_bounds(insns: Seq<InsnView>, fs: Seq<FunctionView>) -> bool {
    &&& forall|j: int|
        0 <= j < fs.len() ==> #[trigger] fs[j].end_addr == insn_end(fs[j].instructions.last())
    &&& fs.len() > 0 ==> fs[0].start_addr == insns[0].address
    &&& forall|j: int|
        0 < j < fs.len() ==> #[trigger] fs[j].start_addr == if is_ret_mnemonic(
            fs[j - 1].instructions.last().mnemonic,
        ) {
            fs[j - 1].end_addr
        } else {
            fs[j].instructions[0].address
        }
    &&& forall|j: int| 0 <= j < fs.len() ==> #[trigger] fs[j].name == sub_name(fs[j].start_addr)
}

impl DisasmInstruction {
    /// A copy of this instruction.
    pub fn duplicate(&self) -> (r: DisasmInstruction)
        ensures
            r@ == self@,
    {
        DisasmInstruction {
            address: self.address,
            offset: self.offset,
            length: self.length,
            bytes: slice_to_vec(self.bytes.as_slice()),
            mnemonic: self.mnemonic.clone(),
            operands: self.operands.clone(),
        }
    }
}

fn is_ret(m: &String) -> (r: bool)
    ensures
        r == is_ret_mnemonic(m@),
{
    let ret = String::from_str("ret");
    let retf = String::from_str("retf");
    let iret = String::from_str("iret");
    let iretd = String::from_str("iretd");
    *m == ret || *m == retf || *m == iret || *m == iretd
}

fn sub_name_string(addr: u64) -> (r: String)
    ensures
        r@ == sub_name(addr),
{
    proof { reveal_strlit("sub_"); }
    let mut r = String::from_str("sub_");
    push_hex(&mut r, addr);
    assert(r@ =~= sub_name(addr));
    r
}

/// Where a direct `call` goes (see `call_target`).
fn insn_call_target(i: &DisasmInstruction) -> (r: Option<u64>)
    ensures
        r == call_target(i@),
{
    proof {
        reveal_strlit("call");
    }
    let call = String::from_str("call");
    if i.mnemonic != call {
        return None;
    }
    let ops = i.operands.as_str();
    let n = ops.unicode_len();
    if n == 0 {
        return None;
    }
    if ops.get_char(n - 1) != 'h' {
        return None;
    }
    parse_hex(ops.substring_char(0, n - 1))
}

/// The addresses that the instructions call directly (see `call_target`).
fn call_targets(instructions: &Vec<DisasmInstruction>) -> (r: Vec<u64>)
    ensures
        forall|a: u64| r@.contains(a) <==> is_call_target(insns_view(instructions@), a),
{
    let ghost all = insns_view(instructions@);
    let mut r: Vec<u64> = Vec::new();
    let mut i: usize = 0;
    while i < instructions.len()
        invariant
            all == insns_view(instructions@),
            i <= instructions.len(),
            forall|a: u64| r@.contains(a) <==> exists|k: int| 0 <= k < i && #[trigger] call_target(all[k]) == Some(a),
        decreases instructions.len() - i,
    {
        assert(all[i as int] == instructions@[i as int]@);
        let c = insn_call_target(&instructions[i]);
        let ghost before = r@;
        if let Some(a) = c {
            r.push(a);
        }
        proof {
            assert forall|x: u64| r@.contains(x) <==> exists|k: int| 0 <= k < i + 1 && #[trigger] call_target(all[k]) == Some(x) by {
                if r@.contains(x) {
                    if before.contains(x) {
                        let k = choose|k: int| 0 <= k < i && #[trigger] call_target(all[k]) == Some(x);
                        assert(0 <= k < i + 1 && call_target(all[k]) == Some(x));
                    } else {
                        let m = choose|m: int| 0 <= m < r@.len() && r@[m] == x;
                        assert(m == before.len());
                        assert(call_target(all[i as int]) == Some(x));
                    }
                }
                if exists|k: int| 0 <= k < i + 1 && #[trigger] call_target(all[k]) == Some(x) {
                    let k = choose|k: int| 0 <= k < i + 1 && #[trigger] call_target(all[k]) == Some(x);
                    if k < i {
                        assert(before.contains(x));
                        let m = choose|m: int| 0 <= m < before.len() && before[m] == x;
                        assert(r@[m] == x);
                    } else {
                        assert(r@[before.len() as int] == x);
                    }
                }
            }
        }
        i = i + 1;
    }
    r
}

fn contains_u64(v: &Vec<u64>, a: u64) -> (r: bool)
    ensures
        r == v@.contains(a),
{
    let mut i: usize = 0;
    while i < v.len()
        invariant
            i <= v.len(),
            forall|k: int| 0 <= k < i ==> v@[k] != a,
        decreases v.len() - i,
    {
        if v[i] == a {
            return true;
        }
        i = i + 1;
    }
    false
}

/// Groups decoded instructions into functions: a function ends with a
/// return instruction, and one that some instruction calls directly begins
/// a new function; what follows the last cut forms one more function.
pub fn identify_functions(instructions: &Vec<DisasmInstruction>) -> (r: Vec<FunctionInfo>)
    requires
        insns_fit(insns_view(instructions@)),
    ensures
        splits_functions(insns_view(instructions@), functions_view(r@)),
        function_bounds(insns_view(instructions@), functions_view(r@)),
        functions_fit(functions_view(r@)),
{
    let ghost all = insns_view(instructions@);
    let mut functions: Vec<FunctionInfo> = Vec::new();
    if instructions.len() == 0 {
        assert(groups(functions_view(functions@)) =~= Seq::<Seq<InsnView>>::empty());
        assert(all =~= Seq::<InsnView>::empty());
        return functions;
    }
    let targets = call_targets(instructions);
    let mut func_start: u64 = instructions[0].address;
    let mut func_insns: Vec<DisasmInstruction> = Vec::new();
    let mut i: usize = 0;
    while i < instructions.len()
        invariant
            all == insns_view(instructions@),
            insns_fit(all),
            forall|a: u64| targets@.contains(a) <==> is_call_target(all, a),
            0 < instructions.len(),
            i <= instructions.len(),
            groups(functions_view(functions@)).flatten() + insns_view(func_insns@) == all.subrange(0, i as int),
            forall|j: int| 0 <= j < functions@.len() ==> #[trigger] functions@[j]@.instructions.len() > 0,
            forall|j: int, k: int|
                0 <= j < functions@.len() && 0 <= k < functions@[j]@.instructions.len() - 1
                    ==> !is_ret_mnemonic(#[trigger] functions@[j]@.instructions[k].mnemonic),
            forall|j: int, k: int|
                0 <= j < functions@.len() && 0 < k < functions@[j]@.instructions.len()
                    ==> !is_call_target(all, #[trigger] functions@[j]@.instructions[k].address),
            forall|j: int|
                0 < j < functions@.len() ==> is_ret_mnemonic(functions@[j - 1]@.instructions.last().mnemonic)
                    || is_call_target(all, #[trigger] functions@[j]@.instructions[0].address),
            forall|k: int|
                0 <= k < func_insns@.len() ==> !is_ret_mnemonic(#[trigger] func_insns@[k]@.mnemonic),
            forall|k: int|
                0 < k < func_insns@.len() ==> !is_call_target(all, #[trigger] func_insns@[k]@.address),
            functions@.len() > 0 && func_insns@.len() > 0 ==> is_ret_mnemonic(
                functions@.last()@.instructions.last().mnemonic,
            ) || is_call_target(all, func_insns@[0]@.address),
            functions@.len() > 0 && func_insns@.len() == 0 ==> is_ret_mnemonic(
                functions@.last()@.instructions.last().mnemonic,
            ),
            forall|j: int|
                0 <= j < functions@.len() ==> #[trigger] functions@[j]@.end_addr == insn_end(
                    functions@[j]@.instructions.last(),
                ),
            functions@.len() > 0 ==> functions@[0]@.start_addr == all[0].address,
            forall|j: int|
                0 < j < functions@.len() ==> #[trigger] functions@[j]@.start_addr == if is_ret_mnemonic(
                    functions@[j - 1]@.instructions.last().mnemonic,
                ) {
                    functions@[j - 1]@.end_addr
                } else {
                    functions@[j]@.instructions[0].address
                },
            forall|j: int|
                0 <= j < functions@.len() ==> #[trigger] functions@[j]@.name == sub_name(
                    functions@[j]@.start_addr,
                ),
            functions@.len() == 0 ==> func_start == all[0].address,
            forall|j: int| 0 <= j < functions@.len() ==> insns_fit(#[trigger] functions@[j]@.instructions),
            insns_fit(insns_view(func_insns@)),
            functions@.len() > 0 && is_ret_mnemonic(functions@.last()@.instructions.last().mnemonic)
                ==> func_start == functions@.last()@.end_addr,
            functions@.len() > 0 && !is_ret_mnemonic(functions@.last()@.instructions.last().mnemonic)
                ==> func_insns@.len() > 0 && func_start == func_insns@[0]@.address,
        decreases instructions.len() - i,
    {
        let insn = &instructions[i];
        assert(all[i as int] == insn@);
        if func_insns.len() > 0 && contains_u64(&targets, insn.address) {
            let ghost before = functions_view(functions@);
            let ghost cur = insns_view(func_insns@);
            let last_index = func_insns.len() - 1;
            assert(cur[last_index as int] == func_insns@[last_index as int]@);
            assert(insn_fits(cur[last_index as int]));
            assert(!is_ret_mnemonic(cur[last_index as int].mnemonic));
            let end = func_insns[last_index].address + func_insns[last_index].length as u64;
            let first = func_insns[0].address;
            assert(cur[0] == func_insns@[0]@);
            let old_insns = func_insns;
            func_insns = Vec::new();
            let f = FunctionInfo {
                name: sub_name_string(func_start),
                start_addr: func_start,
                end_addr: end,
                instructions: old_insns,
            };
            functions.push(f);
            func_start = insn.address;
            proof {
                assert(f@.instructions == cur);
                assert(functions_view(functions@) =~= before.push(f@));
                assert(groups(functions_view(functions@)) =~= groups(before).push(cur));
                groups(before).lemma_flatten_push(cur);
                assert(insns_view(func_insns@) =~= Seq::<InsnView>::empty());
                assert(functions@.last()@ == f@);
                assert(f@.instructions.last() == cur[last_index as int]);
                assert forall|j: int, k: int|
                    0 <= j < functions@.len() && 0 <= k < functions@[j]@.instructions.len() - 1
                        implies !is_ret_mnemonic(#[trigger] functions@[j]@.instructions[k].mnemonic) by {
                    if j == before.len() {
                        assert(functions@[j]@.instructions[k] == cur[k]);
                    }
                }
                assert forall|j: int, k: int|
                    0 <= j < functions@.len() && 0 < k < functions@[j]@.instructions.len()
                        implies !is_call_target(all, #[trigger] functions@[j]@.instructions[k].address) by {
                    if j == before.len() {
                        assert(functions@[j]@.instructions[k] == cur[k]);
                    }
                }
            }
        }
        let ret = is_ret(&insn.mnemonic);
        let ghost before = functions_view(functions@);
        let ghost cur = insns_view(func_insns@);
        func_insns.push(insn.duplicate());
        assert(insns_view(func_insns@) =~= cur.push(all[i as int]));
        assert(all.subrange(0, i + 1) =~= all.subrange(0, i as int).push(all[i as int]));
        if ret {
            assert(insn_fits(all[i as int]));
            let end = insn.address + insn.length as u64;
            let f = FunctionInfo {
                name: sub_name_string(func_start),
                start_addr: func_start,
                end_addr: end,
                instructions: func_insns,
            };
            functions.push(f);
            func_insns = Vec::new();
            func_start = end;
            proof {
                assert(functions_view(functions@) =~= before.push(f@));
                assert(groups(functions_view(functions@)) =~= groups(before).push(f@.instructions));
                groups(before).lemma_flatten_push(f@.instructions);
                assert(insns_view(func_insns@) =~= Seq::<InsnView>::empty());
                assert(f@.instructions.last() == all[i as int]);
            }
        }
        i = i + 1;
    }
    assert(all.subrange(0, instructions.len() as int) =~= all);
    if func_insns.len() > 0 {
        let ghost before = functions_view(functions@);
        let last_index = func_insns.len() - 1;
        assert(insns_view(func_insns@)[last_index as int] == func_insns@[last_index as int]@);
        proof {
            let g = groups(before).flatten();
            assert(g + insns_view(func_insns@) == all);
            assert(all[g.len() + last_index] == insns_view(func_insns@)[last_index as int]);
        }
        let end = func_insns[last_index].address + func_insns[last_index].length as u64;
        let f = FunctionInfo {
            name: sub_name_string(func_start),
            start_addr: func_start,
            end_addr: end,
            instructions: func_insns,
        };
        functions.push(f);
        proof {
            assert(functions_view(functions@) =~= before.push(f@));
            assert(groups(functions_view(functions@)) =~= groups(before).push(f@.instructions));
            groups(before).lemma_flatten_push(f@.instructions);
        }
    } else {
        assert(groups(functions_view(functions@)).flatten() =~= all);
    }
    functions
}


impl SortKey for FunctionInfo {
    open spec fn spec_key(&self) -> u64 {
        self.start_addr
    }

    fn sort_key(&self) -> (r: u64) {
        self.start_addr
    }
}

/// A function is taken to be the one a symbol names when it starts at the
/// symbol's address or already bears its name.
pub open spec fn matches_symbol(f: FunctionView, sym: SymbolView) -> bool {
    f.start_addr == sym.addr || f.name == sym.name
}

/// The index of the first function that `sym` names, or -1 when none does.
pub open spec fn first_match(fs: Seq<FunctionView>, sym: SymbolView) -> int
    decreases fs.len(),
{
    if fs.len() == 0 {
        -1
    } else {
        let k = first_match(fs.drop_last(), sym);
        if k >= 0 {
            k
        } else if matches_symbol(fs.last(), sym) {
            fs.len() - 1
        } else {
            -1
        }
    }
}

/// The test for an instruction at or after `addr`.
pub open spec fn at_or_after(addr: u64) -> spec_fn(InsnView) -> bool {
    |i: InsnView| i.address >= addr
}

/// All instructions of all functions, in order, that lie at or after `addr`.
pub open spec fn insns_from(fs: Seq<FunctionView>, addr: u64) -> Seq<InsnView> {
    groups(fs).flatten().filter(at_or_after(addr))
}

/// The functions after taking one symbol into account: a function symbol
/// renames the first function it names; where it names none, a new function
/// is added that starts at the symbol and holds every instruction at or after
/// it (when there is one). Other symbols change nothing.
pub open spec fn merge_one(fs: Seq<FunctionView>, sym: SymbolView) -> Seq<FunctionView> {
    if sym.ty != SymbolType::Function {
        fs
    } else if first_match(fs, sym) >= 0 {
        let j = first_match(fs, sym);
        fs.update(j, FunctionView { name: sym.name, ..fs[j] })
    } else if insns_from(fs, sym.addr).len() > 0 {
        let ins = insns_from(fs, sym.addr);
        fs.push(
            FunctionView {
                name: sym.name,
                start_addr: sym.addr,
                end_addr: insn_end(ins.last()) as u64,
                instructions: ins,
            },
        )
    } else {
        fs
    }
}

/// The functions after taking the symbols into account one by one, in order.
pub open spec fn merge_all(fs: Seq<FunctionView>, syms: Seq<SymbolView>) -> Seq<FunctionView>
    decreases syms.len(),
{
    if syms.len() == 0 {
        fs
    } else {
        merge_one(merge_all(fs, syms.drop_last()), syms.last())
    }
}

/// Every instruction of every function ends at an address that fits in 64
/// bits.
pub open spec fn functions_fit(fs: Seq<FunctionView>) -> bool {
    forall|j: int| 0 <= j < fs.len() ==> insns_fit(#[trigger] fs[j].instructions)
}

proof fn lemma_first_match(fs: Seq<FunctionView>, sym: SymbolView, j: int)
    requires
        0 <= j <= fs.len(),
        forall|k: int| 0 <= k < j ==> !matches_symbol(#[trigger] fs[k], sym),
        j < fs.len() ==> matches_symbol(fs[j], sym),
    ensures
        first_match(fs, sym) == if j < fs.len() { j } else { -1 },
    decreases fs.len(),
{
    if fs.len() > 0 {
        if j < fs.len() - 1 {
            lemma_first_match(fs.drop_last(), sym, j);
        } else {
            assert forall|k: int| 0 <= k < fs.len() - 1 implies !matches_symbol(
                #[trigger] fs.drop_last()[k],
                sym,
            ) by {
                assert(fs.drop_last()[k] == fs[k]);
            }
            lemma_first_match(fs.drop_last(), sym, fs.len() - 1);
        }
    }
}

proof fn lemma_first_match_range(fs: Seq<FunctionView>, sym: SymbolView)
    ensures
        -1 <= first_match(fs, sym) < fs.len(),
    decreases fs.len(),
{
    if fs.len() > 0 {
        lemma_first_match_range(fs.drop_last(), sym);
    }
}

proof fn lemma_merge_one_fits(fs: Seq<FunctionView>, sym: SymbolView)
    requires
        functions_fit(fs),
    ensures
        functions_fit(merge_one(fs, sym)),
{
    let m = merge_one(fs, sym);
    lemma_first_match_range(fs, sym);
    if sym.ty == SymbolType::Function && first_match(fs, sym) >= 0 {
        let j = first_match(fs, sym);
        assert forall|k: int| 0 <= k < m.len() implies insns_fit(#[trigger] m[k].instructions) by {
            assert(m[k].instructions == fs[k].instructions);
        }
    } else if sym.ty == SymbolType::Function && insns_from(fs, sym.addr).len() > 0 {
        lemma_flatten_fits(groups(fs));
        let flat = groups(fs).flatten();
        let ins = insns_from(fs, sym.addr);
        assert forall|k: int| 0 <= k < ins.len() implies insn_fits(#[trigger] ins[k]) by {
            flat.lemma_filter_contains_rev(at_or_after(sym.addr), ins[k]);
        }
        assert forall|k: int| 0 <= k < m.len() implies insns_fit(#[trigger] m[k].instructions) by {
            if k < fs.len() {
                assert(m[k] == fs[k]);
            }
        }
    }
}

proof fn lemma_flatten_fits(g: Seq<Seq<InsnView>>)
    requires
        forall|j: int| 0 <= j < g.len() ==> insns_fit(#[trigger] g[j]),
    ensures
        insns_fit(g.flatten()),
    decreases g.len(),
{
    if g.len() > 0 {
        lemma_flatten_fits(g.drop_last());
        g.drop_last().lemma_flatten_push(g.last());
        assert(g.drop_last().push(g.last()) =~= g);
        assert(insns_fit(g.drop_last().flatten() + g.last())) by {
            let a = g.drop_last().flatten();
            let b = g.last();
            assert forall|k: int| 0 <= k < (a + b).len() implies insn_fits(#[trigger] (a + b)[k]) by {
                if k < a.len() {
                    assert((a + b)[k] == a[k]);
                } else {
                    assert((a + b)[k] == b[k - a.len()]);
                }
            }
        }
    }
}

fn insns_at_or_after(functions: &Vec<FunctionInfo>, addr: u64) -> (r: Vec<DisasmInstruction>)
    ensures
        insns_view(r@) == insns_from(functions_view(functions@), addr),
{
    let ghost fs = functions_view(functions@);
    let ghost p = at_or_after(addr);
    let mut r: Vec<DisasmInstruction> = Vec::new();
    let mut a: usize = 0;
    while a < functions.len()
        invariant
            fs == functions_view(functions@),
            p == at_or_after(addr),
            a <= functions.len(),
            insns_view(r@) == groups(fs.subrange(0, a as int)).flatten().filter(p),
        decreases functions.len() - a,
    {
        let f = &functions[a];
        let ghost before = insns_view(r@);
        let mut b: usize = 0;
        while b < f.instructions.len()
            invariant
                p == at_or_after(addr),
                b <= f.instructions.len(),
                insns_view(r@) == before + insns_view(f.instructions@).subrange(0, b as int).filter(p),
            decreases f.instructions.len() - b,
        {
            let ghost done = insns_view(f.instructions@).subrange(0, b as int);
            assert(insns_view(f.instructions@).subrange(0, b + 1) =~= done.push(
                f.instructions@[b as int]@,
            ));
            proof {
                done.lemma_filter_push(f.instructions@[b as int]@, p);
            }
            if f.instructions[b].address >= addr {
                let ghost old_r = insns_view(r@);
                r.push(f.instructions[b].duplicate());
                assert(insns_view(r@) =~= old_r.push(f.instructions@[b as int]@));
            }
            b = b + 1;
        }
        proof {
            assert(insns_view(f.instructions@).subrange(0, f.instructions@.len() as int) =~= insns_view(
                f.instructions@,
            ));
            let g = groups(fs.subrange(0, a as int));
            assert(groups(fs.subrange(0, a + 1)) =~= g.push(fs[a as int].instructions));
            g.lemma_flatten_push(fs[a as int].instructions);
            Seq::filter_distributes_over_add(g.flatten(), fs[a as int].instructions, p);
        }
        a = a + 1;
    }
    assert(fs.subrange(0, functions@.len() as int) =~= fs);
    r
}

/// Names the functions after the function symbols, adds a function for each
/// function symbol that names none, and orders the functions by start
/// address (stably).
pub fn merge_symbols_with_functions(symbols: &Vec<SymbolInfo>, functions: Vec<FunctionInfo>) -> (r:
    Vec<FunctionInfo>)
    requires
        functions_fit(functions_view(functions@)),
    ensures
        exists|m: Seq<FunctionInfo>|
            #[trigger] functions_view(m) == merge_all(functions_view(functions@), symbols_view(symbols@))
                && stably_sorted(m, r@),
{
    let ghost fs0 = functions_view(functions@);
    let ghost syms = symbols_view(symbols@);
    let mut functions = functions;
    let mut s: usize = 0;
    while s < symbols.len()
        invariant
            syms == symbols_view(symbols@),
            s <= symbols.len(),
            functions_view(functions@) == merge_all(fs0, syms.subrange(0, s as int)),
            functions_fit(functions_view(functions@)),
        decreases symbols.len() - s,
    {
        let sym = &symbols[s];
        let ghost cur = functions_view(functions@);
        proof {
            assert(syms.subrange(0, s + 1).drop_last() =~= syms.subrange(0, s as int));
            assert(syms.subrange(0, s + 1).last() == sym@);
            lemma_merge_one_fits(cur, sym@);
        }
        if sym.ty == SymbolType::Function {
            let mut j: usize = 0;
            while j < functions.len() && !(functions[j].start_addr == sym.addr || functions[j].name
                == sym.name)
                invariant
                    cur == functions_view(functions@),
                    j <= functions.len(),
                    forall|k: int| 0 <= k < j ==> !matches_symbol(#[trigger] cur[k], sym@),
                decreases functions.len() - j,
            {
                j = j + 1;
            }
            proof {
                lemma_first_match(cur, sym@, j as int);
            }
            if j < functions.len() {
                let mut f = functions.remove(j);
                f.name = sym.name.clone();
                functions.insert(j, f);
                assert(functions_view(functions@) =~= cur.update(
                    j as int,
                    FunctionView { name: sym@.name, ..cur[j as int] },
                ));
            } else {
                let insns = insns_at_or_after(&functions, sym.addr);
                if insns.len() > 0 {
                    let last = insns.len() - 1;
                    proof {
                        lemma_merge_one_fits(cur, sym@);
                        let m = merge_one(cur, sym@);
                        assert(m.last().instructions[last as int] == insns_view(insns@)[last as int]);
                        assert(insn_fits(m.last().instructions[last as int]));
                    }
                    let end = insns[last].address + insns[last].length as u64;
                    let f = FunctionInfo {
                        name: sym.name.clone(),
                        start_addr: sym.addr,
                        end_addr: end,
                        instructions: insns,
                    };
                    functions.push(f);
                    assert(functions_view(functions@) =~= cur.push(f@));
                }
            }
        }
        s = s + 1;
    }
    assert(syms.subrange(0, symbols@.len() as int) =~= syms);
    let ghost m = functions@;
    let r = stable_sort_by_key(functions);
    assert(functions_view(m) == merge_all(fs0, syms));
    r
}


/// The length of the instruction that iced-x86 decodes (64-bit mode, no
/// options) from the start of `code`, placed at address `ip`.
pub uninterp spec fn iced_length(code: Seq<u8>, ip: u64) -> usize;

/// The mnemonic text that iced-x86's Intel formatter writes for that
/// instruction.
pub uninterp spec fn iced_mnemonic(code: Seq<u8>, ip: u64) -> Seq<char>;

/// The operand text that iced-x86's Intel formatter writes for that
/// instruction.
pub uninterp spec fn iced_operands(code: Seq<u8>, ip: u64) -> Seq<char>;

/// Decodes one instruction with `iced_x86::Decoder::with_ip(64, ..)` and
/// `decode`, and gives its length. Claimed: the length is
/// `iced_length(code, ip)`, a function of its arguments alone; the decoder
/// takes at least one byte and never more than 15 or than `code` holds (an
/// undecodable or cut-off encoding yields an invalid instruction over the
/// bytes read).
#[verifier::external_body]
fn decode_length(code: &[u8], ip: u64) -> (r: usize)
    requires
        code@.len() > 0,
    ensures
        r == iced_length(code@, ip),
        1 <= r <= code@.len(),
        r <= 15,
{
    iced_x86::Decoder::with_ip(64, code, ip, iced_x86::DecoderOptions::NONE).decode().len()
}

/// Decodes one instruction as `decode_length` does and writes its mnemonic
/// with `IntelFormatter::format_mnemonic`. Claimed: the text is
/// `iced_mnemonic(code, ip)`.
#[verifier::external_body]
fn decode_mnemonic(code: &[u8], ip: u64) -> (r: String)
    requires
        code@.len() > 0,
    ensures
        r@ == iced_mnemonic(code@, ip),
{
    let insn = iced_x86::Decoder::with_ip(64, code, ip, iced_x86::DecoderOptions::NONE).decode();
    let mut out = String::new();
    iced_x86::IntelFormatter::new().format_mnemonic(&insn, &mut out);
    out
}

/// Decodes one instruction as `decode_length` does and writes its operands
/// with `IntelFormatter::format_all_operands`. Claimed: the text is
/// `iced_operands(code, ip)`.
#[verifier::external_body]
fn decode_operands(code: &[u8], ip: u64) -> (r: String)
    requires
        code@.len() > 0,
    ensures
        r@ == iced_operands(code@, ip),
{
    let insn = iced_x86::Decoder::with_ip(64, code, ip, iced_x86::DecoderOptions::NONE).decode();
    let mut out = String::new();
    iced_x86::IntelFormatter::new().format_all_operands(&insn, &mut out);
    out
}

/// The instruction decoded at offset `off` of `data`, loaded at `base`.
pub open spec fn decoded_at(data: Seq<u8>, base: u64, off: int) -> InsnView {
    let code = data.subrange(off, data.len() as int);
    let ip = (base + off) as u64;
    let n = iced_length(code, ip);
    InsnView {
        address: ip,
        offset: off as usize,
        length: n,
        bytes: data.subrange(off, off + n),
        mnemonic: trim_ws(iced_mnemonic(code, ip)),
        operands: trim_ws(iced_operands(code, ip)),
    }
}

/// The instructions decoded one after another from offset `off` to the end
/// of `data`, loaded at `base`.
pub open spec fn decode_from(data: Seq<u8>, base: u64, off: int) -> Seq<InsnView>
    decreases data.len() - off,
{
    if off < 0 || off >= data.len() {
        Seq::empty()
    } else {
        let n = decoded_at(data, base, off).length;
        if n < 1 || off + n > data.len() {
            Seq::empty()
        } else {
            seq![decoded_at(data, base, off)] + decode_from(data, base, off + n)
        }
    }
}

/// Disassembles `data`, loaded at `base_addr`, as 64-bit x86 code, one
/// instruction after another, and groups the instructions into functions.
pub fn disassemble_section(data: &Vec<u8>, base_addr: u64) -> (r: DisasmResult)
    requires
        base_addr + data@.len() <= u64::MAX,
    ensures
        insns_view(r.all_instructions@) == decode_from(data@, base_addr, 0),
        splits_functions(insns_view(r.all_instructions@), functions_view(r.functions@)),
        function_bounds(insns_view(r.all_instructions@), functions_view(r.functions@)),
        functions_fit(functions_view(r.functions@)),
        r.bitness == 64,
{
    let bitness: u32 = 64;
    let mut all_instructions: Vec<DisasmInstruction> = Vec::new();
    let mut offset: usize = 0;
    let len = data.len();
    while offset < len
        invariant
            len == data@.len(),
            base_addr + len <= u64::MAX,
            offset <= len,
            insns_view(all_instructions@) + decode_from(data@, base_addr, offset as int)
                == decode_from(data@, base_addr, 0),
            forall|k: int|
                0 <= k < all_instructions@.len() ==> insn_end(#[trigger] all_instructions@[k]@)
                    <= base_addr + offset,
        decreases len - offset,
    {
        let code = slice_subrange(data.as_slice(), offset, len);
        let ip = base_addr + offset as u64;
        let n = decode_length(code, ip);
        let mnemonic = trim(decode_mnemonic(code, ip).as_str());
        let operands = trim(decode_operands(code, ip).as_str());
        let bytes = slice_to_vec(slice_subrange(data.as_slice(), offset, offset + n));
        let insn = DisasmInstruction { address: ip, offset, length: n, bytes, mnemonic, operands };
        let ghost before = insns_view(all_instructions@);
        all_instructions.push(insn);
        proof {
            assert(insn@ == decoded_at(data@, base_addr, offset as int));
            assert(insns_view(all_instructions@) =~= before.push(insn@));
            assert(decode_from(data@, base_addr, offset as int) == seq![insn@] + decode_from(
                data@,
                base_addr,
                offset + n,
            ));
            assert(before.push(insn@) + decode_from(data@, base_addr, offset + n) =~= before + (seq![
                insn@,
            ] + decode_from(data@, base_addr, offset + n)));
        }
        offset = offset + n;
    }
    proof {
        assert(decode_from(data@, base_addr, offset as int) =~= Seq::<InsnView>::empty());
        assert(insns_view(all_instructions@) =~= decode_from(data@, base_addr, 0));
        assert forall|k: int| 0 <= k < insns_view(all_instructions@).len() implies insn_fits(
            #[trigger] insns_view(all_instructions@)[k],
        ) by {
            assert(insns_view(all_instructions@)[k] == all_instructions@[k]@);
        }
    }
    let functions = identify_functions(&all_instructions);
    DisasmResult { functions, all_instructions, bitness }
}


/// `d` is the disassembly of section `s` with its functions named after
/// `syms`: the instructions decoded from the section's bytes at its
/// address, cut into functions after each return, then merged with the
/// function symbols and ordered by start address.
pub open spec fn disasm_of(s: SectionView, syms: Seq<SymbolView>, d: DisasmView) -> bool {
    let insns = decode_from(s.data, s.addr, 0);
    &&& d.all_instructions == insns
    &&& d.bitness == 64
    &&& exists|fs: Seq<FunctionView>, m: Seq<FunctionInfo>, r: Seq<FunctionInfo>|
        #![trigger splits_functions(insns, fs), stably_sorted(m, r)]
        splits_functions(insns, fs) && function_bounds(insns, fs) && functions_view(m) == merge_all(fs, syms)
            && stably_sorted(m, r) && functions_view(r) == d.functions
}

/// Disassembles a section and names its functions after the symbols.
pub fn disassemble_named(section: &SectionInfo, symbols: &Vec<SymbolInfo>) -> (r: DisasmResult)
    requires
        section@.addr + section@.data.len() <= u64::MAX,
    ensures
        disasm_of(section@, symbols_view(symbols@), r@),
{
    let disasm = disassemble_section(&section.data, section.addr);
    let ghost fs = functions_view(disasm.functions@);
    let merged = merge_symbols_with_functions(symbols, disasm.functions);
    let r = DisasmResult { functions: merged, all_instructions: disasm.all_instructions, bitness: disasm.bitness };
    proof {
        let insns = decode_from(section@.data, section@.addr, 0);
        let m = choose|m: Seq<FunctionInfo>| #[trigger] functions_view(m) == merge_all(fs, symbols_view(symbols@))
            && stably_sorted(m, r.functions@);
        assert(splits_functions(insns, fs) && stably_sorted(m, r.functions@));
    }
    r
}

} // verus!
