//! The disassembly panel: which function is shown and where its cursor is.

use vstd::prelude::*;

use crate::elf::disasm::{DisasmInstruction, FunctionInfo, FunctionView, InsnView};
use crate::text::{hex_seq, pad_left, pad_right, push_hex, push_hex_padded, push_padded_right};
use crate::ui::overview::{hex_byte, sat_sub};

verus! {

/// The chosen function and the cursor (an instruction index within it).
#[derive(Debug, Clone, Copy, PartialEq, Eq, Structural)]
pub struct DisasmState {
    pub selected_function: usize,
    pub scroll: usize,
}

impl DisasmState {
    /// The initial state: first function, first instruction.
    pub fn new() -> (r: Self)
        ensures
            r == (DisasmState { selected_function: 0, scroll: 0 }),
    {
        DisasmState { selected_function: 0, scroll: 0 }
    }

    /// For a function of `total` instructions shown `visible` rows at a
    /// time: brings the cursor onto an instruction (0 when there is none)
    /// and gives the first instruction shown, which centres the cursor where
    /// the function allows and always keeps it in view.
    pub fn fit_window(&mut self, total: usize, visible: u16) -> (window_start: usize)
        requires
            visible >= 1,
            total <= isize::MAX,
        ensures
            final(self).selected_function == old(self).selected_function,
            final(self).scroll == if total == 0 {
                0
            } else if old(self).scroll >= total {
                total - 1
            } else {
                old(self).scroll as int
            },
            ({
                let cursor = final(self).scroll as int;
                let w1 = sat_sub(cursor, (visible / 2) as int);
                let w2 = if w1 + visible > total { sat_sub(total as int, visible as int) } else { w1 };
                let w3 = if cursor < w2 { cursor } else { w2 };
                window_start == if cursor >= w3 + visible { cursor - (visible - 1) } else { w3 }
            }),
            total > 0 ==> window_start <= final(self).scroll < window_start + visible,
    {
        let visible = visible as usize;
        if total == 0 {
            self.scroll = 0;
        } else if self.scroll >= total {
            self.scroll = total - 1;
        }
        let cursor = self.scroll;
        let mut window_start = cursor.saturating_sub(visible / 2);
        if window_start + visible > total {
            window_start = total.saturating_sub(visible);
        }
        if cursor < window_start {
            window_start = cursor;
        }
        if cursor >= window_start + visible {
            window_start = cursor - (visible - 1);
        }
        window_start
    }
}


/// The bytes as `{:02x}` writes each, separated by spaces.
pub open spec fn bytes_hex(bs: Seq<u8>) -> Seq<char>
    decreases bs.len(),
{
    if bs.len() == 0 {
        Seq::empty()
    } else if bs.len() == 1 {
        hex_byte(bs[0])
    } else {
        bytes_hex(bs.drop_last()) + " "@ + hex_byte(bs.last())
    }
}

/// An instruction's line: address, bytes, mnemonic and operands.
pub open spec fn insn_line(i: InsnView) -> Seq<char> {
    "0x"@ + pad_left(hex_seq(i.address as nat), 8, '0') + ": "@ + pad_right(bytes_hex(i.bytes), 20) + "  "@
        + i.mnemonic + " "@ + i.operands
}

/// A function's entry in the function list.
pub open spec fn function_label(f: FunctionView) -> Seq<char> {
    " "@ + f.name + " (0x"@ + hex_seq(f.start_addr as nat) + ")"@
}

/// The address of the instruction under the cursor, or the function's
/// start when the cursor is past its instructions.
pub open spec fn cursor_address(f: FunctionView, scroll: usize) -> u64 {
    if scroll < f.instructions.len() {
        f.instructions[scroll as int].address
    } else {
        f.start_addr
    }
}

/// The instruction list's title: the function's name and address range and
/// the address under the cursor.
pub open spec fn disasm_title(f: FunctionView, scroll: usize) -> Seq<char> {
    f.name + " (0x"@ + hex_seq(f.start_addr as nat) + "-0x"@ + hex_seq(f.end_addr as nat) + ") [Disasm] 0x"@
        + hex_seq(cursor_address(f, scroll) as nat)
}

/// An instruction's line (see `insn_line`).
pub fn insn_line_string(i: &DisasmInstruction) -> (r: String)
    ensures
        r@ == insn_line(i@),
{
    proof {
        reveal_strlit("0x");
        reveal_strlit(": ");
        reveal_strlit("  ");
        reveal_strlit(" ");
    }
    let mut bytes = String::new();
    let mut k: usize = 0;
    while k < i.bytes.len()
        invariant
            k <= i.bytes@.len(),
            bytes@ == bytes_hex(i.bytes@.subrange(0, k as int)),
        decreases i.bytes@.len() - k,
    {
        if k > 0 {
            bytes.append(" ");
        }
        push_hex_padded(&mut bytes, i.bytes[k] as u64, 2);
        proof {
            let t = i.bytes@.subrange(0, k + 1);
            assert(t.drop_last() =~= i.bytes@.subrange(0, k as int));
            if k == 0 {
                assert(bytes_hex(i.bytes@.subrange(0, 0)) =~= Seq::<char>::empty());
            }
        }
        k = k + 1;
        assert(bytes@ =~= bytes_hex(i.bytes@.subrange(0, k as int)));
    }
    assert(i.bytes@.subrange(0, i.bytes@.len() as int) =~= i.bytes@);
    let mut r = String::from_str("0x");
    push_hex_padded(&mut r, i.address, 8);
    r.append(": ");
    push_padded_right(&mut r, bytes.as_str(), 20);
    r.append("  ");
    r.append(i.mnemonic.as_str());
    r.append(" ");
    r.append(i.operands.as_str());
    assert(r@ =~= insn_line(i@));
    r
}

/// A function's entry in the function list (see `function_label`).
pub fn function_label_string(f: &FunctionInfo) -> (r: String)
    ensures
        r@ == function_label(f@),
{
    proof {
        reveal_strlit(" ");
        reveal_strlit(" (0x");
        reveal_strlit(")");
    }
    let mut r = String::from_str(" ");
    r.append(f.name.as_str());
    r.append(" (0x");
    push_hex(&mut r, f.start_addr);
    r.append(")");
    assert(r@ =~= function_label(f@));
    r
}

/// The instruction list's title (see `disasm_title`).
pub fn title(f: &FunctionInfo, scroll: usize) -> (r: String)
    ensures
        r@ == disasm_title(f@, scroll),
{
    proof {
        reveal_strlit(" (0x");
        reveal_strlit("-0x");
        reveal_strlit(") [Disasm] 0x");
    }
    let addr = if scroll < f.instructions.len() {
        assert(f@.instructions[scroll as int] == f.instructions@[scroll as int]@);
        f.instructions[scroll].address
    } else {
        f.start_addr
    };
    let mut r = String::from_str(f.name.as_str());
    r.append(" (0x");
    push_hex(&mut r, f.start_addr);
    r.append("-0x");
    push_hex(&mut r, f.end_addr);
    r.append(") [Disasm] 0x");
    push_hex(&mut r, addr);
    assert(r@ =~= disasm_title(f@, scroll));
    r
}

} // verus!
