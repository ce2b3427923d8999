//! Searching the shown panel.

use vstd::prelude::*;
use vstd::utf8::encode_utf8;

use crate::app::navigate::hex_section_index;
use crate::app::{app_ok, App, AppView, DetailView};
use crate::elf::disasm::{functions_view, insns_view, DisasmInstruction, FunctionInfo, FunctionView, InsnView};
use crate::elf::parser::SectionInfo;
use crate::text::{ascii_lower, has_substring, lowercase, str_contains, to_lower, push_char};
use crate::ui::disasm::DisasmState;
use crate::ui::hexdump::HexdumpView;
use crate::ui::layout_map::{build_regions, layout_of, regions_view, LayoutMapState, RegionView};
use crate::ui::overview::{lines_view, overview_lines, overview_search_lines, OverviewState};
use crate::ui::strings::{extract_strings, found_view, is_text_byte, strings_in, StringsState};
use crate::ui::tree::TreeNodeType;

verus! {

/// The search prompt and the matches of the last search.
#[derive(Debug)]
pub struct SearchState {
    pub active: bool,
    pub input: String,
    pub query: String,
    pub results: Vec<usize>,
    pub current_result: usize,
    pub no_matches_timer: u8,
}

/// The abstract value of a `SearchState`.
pub struct SearchView {
    pub active: bool,
    pub input: Seq<char>,
    pub query: Seq<char>,
    pub results: Seq<usize>,
    pub current_result: usize,
    pub no_matches_timer: u8,
}

impl View for SearchState {
    type V = SearchView;

    open spec fn view(&self) -> SearchView {
        SearchView {
            active: self.active,
            input: self.input@,
            query: self.query@,
            results: self.results@,
            current_result: self.current_result,
            no_matches_timer: self.no_matches_timer,
        }
    }
}

/// The state before any search: prompt closed and empty, no matches.
pub open spec fn fresh_search() -> SearchView {
    SearchView {
        active: false,
        input: Seq::empty(),
        query: Seq::empty(),
        results: Seq::empty(),
        current_result: 0,
        no_matches_timer: 0,
    }
}

impl SearchState {
    /// The state before any search.
    pub fn new() -> (r: Self)
        ensures
            r@ == fresh_search(),
    {
        SearchState {
            active: false,
            input: String::new(),
            query: String::new(),
            results: Vec::new(),
            current_result: 0,
            no_matches_timer: 0,
        }
    }
}


impl SearchState {
    /// Counts down the "no matches" notice by one frame.
    pub fn tick(&mut self)
        ensures
            final(self)@ == (SearchView {
                no_matches_timer: if old(self).no_matches_timer > 0 {
                    (old(self).no_matches_timer - 1) as u8
                } else {
                    0
                },
                ..old(self)@
            }),
    {
        if self.no_matches_timer > 0 {
            self.no_matches_timer = self.no_matches_timer - 1;
        }
    }
}

/// The value of a hexadecimal digit of either case.
pub open spec fn hex_digit_value(c: char) -> Option<nat> {
    if '0' <= c <= '9' {
        Some((c as nat - '0' as nat) as nat)
    } else if 'a' <= c <= 'f' {
        Some((c as nat - 'a' as nat + 10) as nat)
    } else if 'A' <= c <= 'F' {
        Some((c as nat - 'A' as nat + 10) as nat)
    } else {
        None
    }
}

/// The value of a run of hexadecimal digits (0 for none), or `None` when a
/// character is no such digit.
pub open spec fn hex_digits_value(s: Seq<char>) -> Option<nat>
    decreases s.len(),
{
    if s.len() == 0 {
        Some(0)
    } else {
        match (hex_digits_value(s.drop_last()), hex_digit_value(s.last())) {
            (Some(v), Some(d)) => Some(v * 16 + d),
            _ => None,
        }
    }
}

/// What `u64::from_str_radix(s, 16)` gives: the value of an optional `+`
/// followed by at least one hexadecimal digit, when it fits in 64 bits.
pub open spec fn parse_hex_u64(s: Seq<char>) -> Option<u64> {
    let t = if s.len() > 0 && s[0] == '+' { s.drop_first() } else { s };
    if t.len() == 0 {
        None
    } else {
        match hex_digits_value(t) {
            Some(v) => if v <= u64::MAX { Some(v as u64) } else { None },
            None => None,
        }
    }
}

fn digit_value(c: char) -> (r: Option<u64>)
    ensures
        match hex_digit_value(c) {
            Some(d) => r == Some(d as u64),
            None => r is None,
        },
{
    if '0' <= c && c <= '9' {
        Some(c as u64 - '0' as u64)
    } else if 'a' <= c && c <= 'f' {
        Some(c as u64 - 'a' as u64 + 10)
    } else if 'A' <= c && c <= 'F' {
        Some(c as u64 - 'A' as u64 + 10)
    } else {
        None
    }
}

/// Parses `s` as `u64::from_str_radix(s, 16)` does (see `parse_hex_u64`).
pub fn parse_hex(s: &str) -> (r: Option<u64>)
    ensures
        r == parse_hex_u64(s@),
{
    let n = s.unicode_len();
    let mut i: usize = 0;
    if n > 0 && s.get_char(0) == '+' {
        i = 1;
    }
    if i == n {
        return None;
    }
    let ghost t = if s@.len() > 0 && s@[0] == '+' { s@.drop_first() } else { s@ };
    let ghost first = i;
    let mut value: u64 = 0;
    let mut overflowed = false;
    while i < n
        invariant
            n == s@.len(),
            first <= i <= n,
            first < n,
            t == s@.subrange(first as int, n as int),
            t == (if s@.len() > 0 && s@[0] == '+' { s@.drop_first() } else { s@ }),
            ({
                let done = s@.subrange(first as int, i as int);
                match hex_digits_value(done) {
                    Some(v) => if overflowed { v > u64::MAX } else { v == value },
                    None => false,
                }
            }),
        decreases n - i,
    {
        let c = s.get_char(i);
        let ghost done = s@.subrange(first as int, i as int);
        let ghost next = s@.subrange(first as int, i + 1);
        assert(next.drop_last() =~= done);
        match digit_value(c) {
            None => {
                proof {
                    let rest = s@.subrange(first as int, n as int);
                    assert(rest[i - first] == c);
                    lemma_bad_digit(rest, i - first);
                    assert(rest == t);
                }
                return None;
            },
            Some(d) => {
                if !overflowed {
                    if value > (u64::MAX - d) / 16 {
                        overflowed = true;
                        assert(value * 16 + d > u64::MAX) by (nonlinear_arith)
                            requires
                                value > (u64::MAX - d) / 16,
                                d < 16,
                        ;
                    } else {
                        assert(value * 16 + d <= u64::MAX) by (nonlinear_arith)
                            requires
                                value <= (u64::MAX - d) / 16,
                                d < 16,
                        ;
                        value = value * 16 + d;
                    }
                }
            },
        }
        i = i + 1;
    }
    assert(s@.subrange(first as int, n as int) =~= t);
    if overflowed {
        None
    } else {
        Some(value)
    }
}

proof fn lemma_bad_digit(s: Seq<char>, k: int)
    requires
        0 <= k < s.len(),
        hex_digit_value(s[k]) is None,
    ensures
        hex_digits_value(s) is None,
    decreases s.len(),
{
    if k < s.len() - 1 {
        assert(s.drop_last()[k] == s[k]);
        lemma_bad_digit(s.drop_last(), k);
    }
}

/// The positions below `n` that pass `p`, in increasing order.
pub open spec fn indices_where(n: int, p: spec_fn(int) -> bool) -> Seq<usize>
    decreases n,
{
    if n <= 0 {
        Seq::empty()
    } else {
        indices_where(n - 1, p) + if p(n - 1) {
            seq![(n - 1) as usize]
        } else {
            Seq::empty()
        }
    }
}

/// The test for a text whose lowercase form holds `lq`.
pub open spec fn text_matches(texts: Seq<Seq<char>>, lq: Seq<char>) -> spec_fn(int) -> bool {
    |i: int| has_substring(lowercase(texts[i]), lq)
}

/// The positions of the texts whose lowercase form holds `lq`.
pub fn matching_texts(texts: &Vec<String>, lq: &str) -> (r: Vec<usize>)
    ensures
        r@ == indices_where(texts@.len() as int, text_matches(lines_view(texts@), lq@)),
{
    let ghost p = text_matches(lines_view(texts@), lq@);
    let mut r: Vec<usize> = Vec::new();
    let mut i: usize = 0;
    while i < texts.len()
        invariant
            i <= texts@.len(),
            p == text_matches(lines_view(texts@), lq@),
            r@ == indices_where(i as int, p),
        decreases texts@.len() - i,
    {
        let lower = to_lower(texts[i].as_str());
        assert(lines_view(texts@)[i as int] == texts@[i as int]@);
        if str_contains(lower.as_str(), lq) {
            r.push(i);
        }
        i = i + 1;
        assert(r@ =~= indices_where(i as int, p));
    }
    r
}

/// Each value is larger than the one before.
pub open spec fn strictly_increasing(s: Seq<usize>) -> bool {
    forall|i: int, j: int| 0 <= i < j < s.len() ==> s[i] < s[j]
}

/// Adds `x` to a strictly increasing list, keeping it so.
fn insert_sorted(r: &mut Vec<usize>, x: usize)
    requires
        strictly_increasing(old(r)@),
    ensures
        strictly_increasing(final(r)@),
        forall|y: usize| #[trigger] final(r)@.contains(y) <==> old(r)@.contains(y) || y == x,
{
    let mut k: usize = 0;
    while k < r.len() && r[k] < x
        invariant
            k <= r@.len(),
            forall|q: int| 0 <= q < k ==> r@[q] < x,
        decreases r@.len() - k,
    {
        k = k + 1;
    }
    if k < r.len() && r[k] == x {
        return;
    }
    let ghost before = r@;
    r.insert(k, x);
    assert forall|y: usize| #[trigger] r@.contains(y) <==> before.contains(y) || y == x by {
        if r@.contains(y) {
            let q = choose|q: int| 0 <= q < r@.len() && r@[q] == y;
            if q < k {
                assert(before[q] == y);
            } else if q > k {
                assert(before[q - 1] == y);
            }
        }
        if before.contains(y) {
            let q = choose|q: int| 0 <= q < before.len() && before[q] == y;
            if q < k {
                assert(r@[q] == y);
            } else {
                assert(r@[q + 1] == y);
            }
        }
        if y == x {
            assert(r@[k as int] == x);
        }
    }
}

/// The query's bytes start at `start` of `data`, with `start` below the
/// bound of the scan (`data.len() - (q.len() - 1)`, saturating).
pub open spec fn is_byte_hit(data: Seq<u8>, q: Seq<u8>, start: int) -> bool {
    let bound = if data.len() >= q.len() - 1 && q.len() >= 1 {
        data.len() - (q.len() - 1)
    } else if q.len() == 0 {
        data.len() as int
    } else {
        0
    };
    &&& 0 <= start < bound
    &&& start + q.len() <= data.len()
    &&& data.subrange(start, start + q.len()) == q
}

/// The number of 16-byte rows of `data`, the last one possibly short.
pub open spec fn num_rows(len: int) -> int {
    (len + 15) / 16
}

/// How the hexdump's text column shows row `row` of `data`: text bytes as
/// themselves, others as dots.
pub open spec fn row_ascii(data: Seq<u8>, row: int) -> Seq<char> {
    let end = if 16 * row + 16 <= data.len() { 16 * row + 16 } else { data.len() as int };
    data.subrange(16 * row, end).map_values(|b: u8| if is_text_byte(b) { b as char } else { '.' })
}

/// The first position at which `n` occurs in `h`, or -1.
pub open spec fn first_occurrence(h: Seq<u8>, n: Seq<u8>, i: int) -> int
    decreases h.len() + 1 - i,
{
    if i < 0 || i + n.len() > h.len() {
        -1
    } else if h.subrange(i, i + n.len()) == n {
        i
    } else {
        first_occurrence(h, n, i + 1)
    }
}

/// The offset that row `row` contributes to a hexdump search for `lq`: the
/// row's start plus the byte position where `lq` first occurs in the
/// lowercase text column; -1 when it does not occur (or the sum leaves
/// `usize`).
pub open spec fn row_offset(data: Seq<u8>, lq: Seq<char>, row: int) -> int {
    let col = first_occurrence(encode_utf8(lowercase(row_ascii(data, row))), encode_utf8(lq), 0);
    if col >= 0 && 16 * row + col <= usize::MAX {
        16 * row + col
    } else {
        -1
    }
}

/// `off` is a match of a hexdump search for `q` in `data`: the query's
/// bytes start there, or some row's text column holds the lowercase query
/// and `off` is where (see `row_offset`).
pub open spec fn is_hex_hit(data: Seq<u8>, q: Seq<char>, off: int) -> bool {
    ||| is_byte_hit(data, encode_utf8(q), off)
    ||| exists|row: int| 0 <= row < num_rows(data.len() as int) && #[trigger] row_offset(data, lowercase(q), row) == off
}

fn occurs_at_bytes(h: &[u8], n: &[u8], i: usize) -> (r: bool)
    requires
        i + n@.len() <= h@.len(),
    ensures
        r == (h@.subrange(i as int, i + n@.len()) == n@),
{
    let hl = h.len();
    let mut k: usize = 0;
    while k < n.len()
        invariant
            hl == h@.len(),
            i + n@.len() <= h@.len(),
            k <= n@.len(),
            forall|q: int| 0 <= q < k ==> h@[i + q] == n@[q],
        decreases n@.len() - k,
    {
        if h[i + k] != n[k] {
            assert(h@.subrange(i as int, i + n@.len())[k as int] != n@[k as int]);
            return false;
        }
        k = k + 1;
    }
    assert(h@.subrange(i as int, i + n@.len()) =~= n@);
    true
}

/// The first position at which `n` occurs in `h`, as `str::find` gives it
/// for the strings that `h` and `n` encode.
fn find_bytes(h: &[u8], n: &[u8]) -> (r: Option<usize>)
    ensures
        match r {
            Some(i) => first_occurrence(h@, n@, 0) == i && i + n@.len() <= h@.len(),
            None => first_occurrence(h@, n@, 0) == -1,
        },
{
    if n.len() > h.len() {
        return None;
    }
    let last = h.len() - n.len();
    let mut i: usize = 0;
    loop
        invariant
            last == h@.len() - n@.len(),
            n@.len() <= h@.len(),
            i <= last,
            first_occurrence(h@, n@, 0) == first_occurrence(h@, n@, i as int),
        decreases last - i,
    {
        if occurs_at_bytes(h, n, i) {
            return Some(i);
        }
        if i == last {
            assert(first_occurrence(h@, n@, i + 1) == -1);
            return None;
        }
        i = i + 1;
    }
}

fn row_text(data: &[u8], from: usize, to: usize) -> (r: String)
    requires
        from <= to <= data@.len(),
    ensures
        r@ == data@.subrange(from as int, to as int).map_values(
            |b: u8| if is_text_byte(b) { b as char } else { '.' },
        ),
{
    let mut r = String::new();
    let mut i: usize = from;
    while i < to
        invariant
            from <= i <= to <= data@.len(),
            r@ == data@.subrange(from as int, i as int).map_values(
                |b: u8| if is_text_byte(b) { b as char } else { '.' },
            ),
        decreases to - i,
    {
        let b = data[i];
        let c = if 0x20 <= b && b <= 0x7e { b as char } else { '.' };
        push_char(&mut r, c);
        i = i + 1;
        assert(r@ =~= data@.subrange(from as int, i as int).map_values(
            |b: u8| if is_text_byte(b) { b as char } else { '.' },
        ));
    }
    r
}

/// The matches of a hexdump search for `query` in `data`, each once, in
/// increasing order (see `is_hex_hit`).
pub fn hexdump_hits(data: &[u8], query: &str) -> (r: Vec<usize>)
    ensures
        strictly_increasing(r@),
        forall|y: usize| #[trigger] r@.contains(y) <==> is_hex_hit(data@, query@, y as int),
        forall|k: int| 0 <= k < r@.len() ==> #[trigger] r@[k] < data@.len(),
{
    let qb = query.as_bytes();
    let len = data.len();
    let qlen = qb.len();
    let bound = len.saturating_sub(qlen.saturating_sub(1));
    let mut r: Vec<usize> = Vec::new();
    let mut start: usize = 0;
    while start < bound
        invariant
            bound == (if len >= qlen - 1 && qlen >= 1 {
                len - (qlen - 1)
            } else if qlen == 0 {
                len as int
            } else {
                0
            }),
            len == data@.len(),
            qlen == qb@.len(),
            qb@ == encode_utf8(query@),
            start <= bound,
            strictly_increasing(r@),
            forall|y: usize| #[trigger] r@.contains(y) <==> y < start && is_byte_hit(data@, qb@, y as int),
            bound <= len,
        decreases bound - start,
    {
        if start + qlen <= len && occurs_at_bytes(data, qb, start) {
            insert_sorted(&mut r, start);
        }
        start = start + 1;
    }
    let lq = to_lower(query);
    let lqb = lq.as_str().as_bytes();
    let rows = len / 16 + if len % 16 != 0 { 1usize } else { 0usize };
    assert(rows == num_rows(len as int)) by (nonlinear_arith)
        requires
            rows == len / 16 + if len % 16 != 0 { 1int } else { 0int },
    ;
    let mut row: usize = 0;
    while row < rows
        invariant
            rows == num_rows(len as int),
            len == data@.len(),
            qb@ == encode_utf8(query@),
            lq@ == lowercase(query@),
            lqb@ == encode_utf8(lq@),
            row <= rows,
            strictly_increasing(r@),
            forall|y: usize| #[trigger] r@.contains(y) <==> is_byte_hit(data@, qb@, y as int)
                || exists|w: int| 0 <= w < row && #[trigger] row_offset(data@, lq@, w) == y,
            forall|y: usize| #[trigger] r@.contains(y) ==> y < len,
        decreases rows - row,
    {
        assert(16 * row <= len) by (nonlinear_arith)
            requires
                row < rows,
                rows == (len + 15) / 16,
        ;
        let from = 16 * row;
        let to = if len - from >= 16 { from + 16 } else { len };
        let text = row_text(data, from, to);
        proof {
            assert forall|i: int| 0 <= i < text@.len() implies '\0' <= #[trigger] text@[i] <= '\u{7f}' by {
                let b = data@[from + i];
                if is_text_byte(b) {
                    assert(text@[i] == b as char);
                }
            }
            assert(vstd::utf8::is_ascii_chars(text@));
        }
        let lower = to_lower(text.as_str());
        let ghost before = r@;
        let ghost off = row_offset(data@, lq@, row as int);
        assert(text@ == row_ascii(data@, row as int));
        proof {
            assert forall|i: int| 0 <= i < lower@.len() implies '\0' <= #[trigger] lower@[i] <= '\u{7f}' by {
                assert(lower@[i] == ascii_lower(text@[i]));
            }
            assert(vstd::utf8::is_ascii_chars(lower@));
            vstd::utf8::is_ascii_chars_encode_utf8(lower@);
        }
        let lb = lower.as_str().as_bytes();
        match find_bytes(lb, lqb) {
            Some(col) => {
                proof {
                    assert(lb@ == encode_utf8(lower@));
                    assert(lower@.len() == to - from);
                    assert(from < to);
                    if lqb@.len() == 0 {
                        let h = lb@;
                        assert(h.subrange(0, 0) =~= lqb@);
                        assert(first_occurrence(h, lqb@, 0) == 0);
                    }
                }
                assert(from + col < to);
                if col <= usize::MAX - from {
                    insert_sorted(&mut r, from + col);
                }
            },
            None => {},
        }
        assert(forall|y: usize| #[trigger] r@.contains(y) <==> before.contains(y) || (off >= 0 && y == off));
        proof {
            assert forall|y: usize| #[trigger] r@.contains(y) <==> is_byte_hit(data@, qb@, y as int)
                || exists|w: int| 0 <= w < row + 1 && #[trigger] row_offset(data@, lq@, w) == y by {
                if exists|w: int| 0 <= w < row + 1 && #[trigger] row_offset(data@, lq@, w) == y {
                    let w = choose|w: int| 0 <= w < row + 1 && #[trigger] row_offset(data@, lq@, w) == y;
                    if w < row {
                        assert(before.contains(y));
                    } else {
                        assert(off == y);
                    }
                }
                if before.contains(y) && !is_byte_hit(data@, qb@, y as int) {
                    let w = choose|w: int| 0 <= w < row && #[trigger] row_offset(data@, lq@, w) == y;
                    assert(0 <= w < row + 1 && row_offset(data@, lq@, w) == y);
                }
                if off >= 0 && y == off {
                    assert(row_offset(data@, lq@, row as int) == y);
                }
            }
        }
        row = row + 1;
    }
    proof {
        assert forall|k: int| 0 <= k < r@.len() implies #[trigger] r@[k] < data@.len() by {
            assert(r@.contains(r@[k]));
        }
    }
    r
}


/// A position below `n` is among `indices_where(n, p)` exactly when it
/// passes `p`, and every listed position is below `n`.
pub proof fn lemma_indices_where(n: int, p: spec_fn(int) -> bool)
    requires
        n <= usize::MAX + 1,
    ensures
        forall|k: int| 0 <= k < n ==> (indices_where(n, p).contains(k as usize) <==> #[trigger] p(k)),
        forall|y: usize| #[trigger] indices_where(n, p).contains(y) ==> y < n,
    decreases n,
{
    if n > 0 {
        lemma_indices_where(n - 1, p);
        let prev = indices_where(n - 1, p);
        let cur = indices_where(n, p);
        assert forall|k: int| 0 <= k < n implies (cur.contains(k as usize) <==> #[trigger] p(k)) by {
            if cur.contains(k as usize) {
                let j = choose|j: int| 0 <= j < cur.len() && cur[j] == k as usize;
                if j < prev.len() {
                    assert(prev[j] == cur[j]);
                    assert(prev.contains(k as usize));
                } else {
                    assert(cur[j] == (n - 1) as usize);
                }
            }
            if p(k) {
                if k < n - 1 {
                    let j = choose|j: int| 0 <= j < prev.len() && prev[j] == k as usize;
                    assert(cur[j] == prev[j]);
                } else {
                    assert(cur[prev.len() as int] == (n - 1) as usize);
                }
            }
        }
        assert forall|y: usize| #[trigger] cur.contains(y) implies y < n by {
            let j = choose|j: int| 0 <= j < cur.len() && cur[j] == y;
            if j < prev.len() {
                assert(prev[j] == cur[j]);
                assert(prev.contains(y));
            }
        }
    }
}

/// The test for an instruction whose lowercase mnemonic or operands hold
/// `lq`.
pub open spec fn insn_matches(insns: Seq<InsnView>, lq: Seq<char>) -> spec_fn(int) -> bool {
    |i: int| has_substring(lowercase(insns[i].mnemonic), lq) || has_substring(lowercase(insns[i].operands), lq)
}

/// Law: a disassembly search for `lq` lists exactly the instructions whose
/// lowercase mnemonic or whose lowercase operand text holds `lq`, each by
/// its position and none past the end.
pub proof fn lemma_insn_search(insns: Seq<InsnView>, lq: Seq<char>)
    requires
        insns.len() <= usize::MAX,
    ensures
        forall|k: int|
            0 <= k < insns.len() ==> (indices_where(insns.len() as int, insn_matches(insns, lq)).contains(
                k as usize,
            ) <==> has_substring(lowercase(insns[k].mnemonic), lq) || has_substring(
                lowercase(insns[k].operands),
                lq,
            )),
        forall|y: usize| indices_where(insns.len() as int, insn_matches(insns, lq)).contains(y) ==> y < insns.len(),
{
    let p = insn_matches(insns, lq);
    lemma_indices_where(insns.len() as int, p);
    assert forall|k: int| 0 <= k < insns.len() implies (indices_where(insns.len() as int, p).contains(k as usize)
        <==> has_substring(lowercase(insns[k].mnemonic), lq) || has_substring(lowercase(insns[k].operands), lq)) by {
        assert(p(k) == (has_substring(lowercase(insns[k].mnemonic), lq) || has_substring(
            lowercase(insns[k].operands),
            lq,
        )));
    }
}

/// Law: in the disassembly, the matches of a text search for `q` are the
/// loaded instructions whose mnemonic or operand text holds `q`, both taken
/// in lowercase.
pub proof fn lemma_disasm_search(a: AppView, q: Seq<char>, r: Seq<usize>)
    requires
        a.current_view == DetailView::Disassembly,
        a.disasm_cache is Some,
        a.disasm_cache->0.all_instructions.len() <= usize::MAX,
        text_results(a, q, r),
    ensures
        ({
            let insns = a.disasm_cache->0.all_instructions;
            &&& forall|k: int|
                0 <= k < insns.len() ==> (r.contains(k as usize) <==> has_substring(
                    lowercase(insns[k].mnemonic),
                    lowercase(q),
                ) || has_substring(lowercase(insns[k].operands), lowercase(q)))
            &&& forall|y: usize| r.contains(y) ==> y < insns.len()
        }),
{
    lemma_insn_search(a.disasm_cache->0.all_instructions, lowercase(q));
}

/// The positions of the instructions whose lowercase mnemonic or operands
/// hold `lq`.
pub fn matching_insns(insns: &Vec<DisasmInstruction>, lq: &str) -> (r: Vec<usize>)
    ensures
        r@ == indices_where(insns@.len() as int, insn_matches(insns_view(insns@), lq@)),
        forall|k: int|
            0 <= k < insns@.len() ==> (r@.contains(k as usize) <==> has_substring(
                lowercase(insns@[k].mnemonic@),
                lq@,
            ) || has_substring(lowercase(insns@[k].operands@), lq@)),
        forall|y: usize| r@.contains(y) ==> y < insns@.len(),
{
    let ghost p = insn_matches(insns_view(insns@), lq@);
    let mut r: Vec<usize> = Vec::new();
    let mut i: usize = 0;
    while i < insns.len()
        invariant
            i <= insns@.len(),
            p == insn_matches(insns_view(insns@), lq@),
            r@ == indices_where(i as int, p),
        decreases insns@.len() - i,
    {
        assert(insns_view(insns@)[i as int] == insns@[i as int]@);
        let m = to_lower(insns[i].mnemonic.as_str());
        let hit = if str_contains(m.as_str(), lq) {
            true
        } else {
            let o = to_lower(insns[i].operands.as_str());
            str_contains(o.as_str(), lq)
        };
        if hit {
            r.push(i);
        }
        i = i + 1;
        assert(r@ =~= indices_where(i as int, p));
    }
    proof {
        let iv = insns_view(insns@);
        assert(iv.len() == insns@.len());
        lemma_insn_search(iv, lq@);
        assert forall|k: int|
            0 <= k < insns@.len() implies (r@.contains(k as usize) <==> has_substring(
                lowercase(insns@[k].mnemonic@),
                lq@,
            ) || has_substring(lowercase(insns@[k].operands@), lq@)) by {
            assert(iv[k] == insns@[k]@);
        }
    }
    r
}

/// The first instruction from the `i`-th on at address `addr`, or -1.
pub open spec fn insn_at(insns: Seq<InsnView>, addr: u64, i: int) -> int
    decreases insns.len() - i,
{
    if i < 0 || i >= insns.len() {
        -1
    } else if insns[i].address == addr {
        i
    } else {
        insn_at(insns, addr, i + 1)
    }
}

/// The first function from the `i`-th on that holds an instruction at
/// `addr`, or -1.
pub open spec fn function_with(fs: Seq<FunctionView>, addr: u64, i: int) -> int
    decreases fs.len() - i,
{
    if i < 0 || i >= fs.len() {
        -1
    } else if insn_at(fs[i].instructions, addr, 0) >= 0 {
        i
    } else {
        function_with(fs, addr, i + 1)
    }
}

/// A query that names an address: it starts with `0x` or `0X`.
pub open spec fn is_hex_query(q: Seq<char>) -> bool {
    q.len() >= 2 && q[0] == '0' && (q[1] == 'x' || q[1] == 'X')
}

/// The viewer with the search matches `r`.
pub open spec fn with_results(a: AppView, r: Seq<usize>) -> AppView {
    AppView { search: SearchView { results: r, ..a.search }, ..a }
}

/// The matches of an address query: in the hexdump, the offset of the
/// address within the selected section when it lies inside it; in the
/// disassembly, the first instruction at the address. None elsewhere, or
/// when the digits after `0x` do not parse.
pub open spec fn address_results(a: AppView, q: Seq<char>) -> Seq<usize> {
    match parse_hex_u64(q.subrange(2, q.len() as int)) {
        None => Seq::empty(),
        Some(addr) => match a.current_view {
            DetailView::Hexdump => match hex_section_index(a) {
                Some(i) => {
                    let s = a.data.sections[i as int];
                    let off: u64 = if addr >= s.addr { (addr - s.addr) as u64 } else { 0 };
                    if off < s.size {
                        seq![off as usize]
                    } else {
                        Seq::empty()
                    }
                },
                None => Seq::empty(),
            },
            DetailView::Disassembly => match a.disasm_cache {
                Some(d) => {
                    let k = insn_at(d.all_instructions, addr, 0);
                    if k >= 0 {
                        seq![k as usize]
                    } else {
                        Seq::empty()
                    }
                },
                None => Seq::empty(),
            },
            _ => Seq::empty(),
        },
    }
}

/// `r` are the matches of the text query `q` in the shown panel: the
/// overview's lines, the disassembly's instructions, the selected section's
/// bytes (see `is_hex_hit`; each match once, in order, inside the section)
/// or its strings,
/// each compared in lowercase. Other panels have none.
pub open spec fn text_results(a: AppView, q: Seq<char>, r: Seq<usize>) -> bool {
    let lq = lowercase(q);
    match a.current_view {
        DetailView::Overview => {
            let lines = overview_lines(a.data);
            r == indices_where(lines.len() as int, text_matches(lines, lq))
        },
        DetailView::Disassembly => match a.disasm_cache {
            Some(d) => r == indices_where(d.all_instructions.len() as int, insn_matches(d.all_instructions, lq)),
            None => r == Seq::<usize>::empty(),
        },
        DetailView::Hexdump => match hex_section_index(a) {
            Some(i) => {
                let data = a.data.sections[i as int].data;
                &&& strictly_increasing(r)
                &&& forall|y: usize| #[trigger] r.contains(y) <==> is_hex_hit(data, q, y as int)
                &&& forall|k: int| 0 <= k < r.len() ==> #[trigger] r[k] < data.len()
            },
            None => r == Seq::<usize>::empty(),
        },
        DetailView::Strings => match hex_section_index(a) {
            Some(i) => {
                let strs = strings_in(a.data.sections[i as int].data);
                r == indices_where(strs.len() as int, text_matches(string_texts_of(strs), lq))
            },
            None => r == Seq::<usize>::empty(),
        },
        _ => r == Seq::<usize>::empty(),
    }
}

/// The viewer after moving to the current match: the overview's or the
/// strings' highlighted line, the hexdump's cursor (scrolled to its row),
/// the layout map's row, or the function and instruction in the
/// disassembly that hold the matching instruction. Nothing changes when
/// there is no current match.
#[verifier::opaque]
pub open spec fn result_applied(a: AppView) -> AppView {
    let r = a.search.results;
    let cur = a.search.current_result as int;
    if cur < r.len() {
        let pos = r[cur];
        match a.current_view {
            DetailView::Overview => AppView { overview: OverviewState { selected_line: pos, ..a.overview }, ..a },
            DetailView::Hexdump => AppView {
                hexdump: HexdumpView { cursor_offset: pos, scroll: pos / 16, ..a.hexdump },
                ..a
            },
            DetailView::Disassembly => match a.disasm_cache {
                Some(d) => if pos < d.all_instructions.len() {
                    let addr = d.all_instructions[pos as int].address;
                    let f = function_with(d.functions, addr, 0);
                    if f >= 0 {
                        AppView {
                            disasm: DisasmState {
                                selected_function: f as usize,
                                scroll: insn_at(d.functions[f].instructions, addr, 0) as usize,
                            },
                            ..a
                        }
                    } else {
                        a
                    }
                } else {
                    a
                },
                None => a,
            },
            DetailView::LayoutMap => AppView { layout_map: LayoutMapState { selected_row: pos, ..a.layout_map }, ..a },
            DetailView::Strings => AppView { strings: StringsState { selected_line: pos, ..a.strings }, ..a },
            _ => a,
        }
    } else {
        a
    }
}

/// The viewer after a search with matches set: the first match shown, or,
/// with none, the "no matches" notice up for 120 frames.
pub open spec fn search_finished(a: AppView) -> AppView {
    if a.search.results.len() == 0 {
        AppView { search: SearchView { no_matches_timer: 120, ..a.search }, ..a }
    } else {
        result_applied(a)
    }
}

/// The labels of the regions, in order.
pub open spec fn region_labels_of(regs: Seq<RegionView>) -> Seq<Seq<char>> {
    regs.map_values(|g: RegionView| g.label)
}

/// The texts of found strings, in order.
pub open spec fn string_texts_of(strs: Seq<(usize, Seq<char>)>) -> Seq<Seq<char>> {
    strs.map_values(|p: (usize, Seq<char>)| p.1)
}

/// `b` is `a` after searching the layout map, whose regions are `regs`,
/// for `lq`: the regions whose lowercase label holds it; the first is
/// highlighted, or the "no matches" notice raised.
pub open spec fn layout_searched(a: AppView, regs: Seq<RegionView>, lq: Seq<char>, b: AppView) -> bool {
    let r = indices_where(regs.len() as int, text_matches(region_labels_of(regs), lq));
    let a1 = with_results(a, r);
    if r.len() > 0 {
        b == AppView { layout_map: LayoutMapState { selected_row: r[0], ..a1.layout_map }, ..a1 }
    } else {
        b == AppView { search: SearchView { no_matches_timer: 120, ..a1.search }, ..a1 }
    }
}

/// `b` is `a` after running the search typed at the prompt. The typed text
/// becomes the query; an empty one changes nothing else. Otherwise the
/// matches are cleared and found anew: for `0x...`, by address (see
/// `address_results`); in the layout map, among region labels (see
/// `layout_searched`); elsewhere by text (see `text_results`). Then the
/// first match is shown, or the "no matches" notice raised.
#[verifier::opaque]
pub open spec fn searched(a: AppView, b: AppView) -> bool {
    let q = a.search.input;
    let a1 = AppView { search: SearchView { query: q, ..a.search }, ..a };
    if q.len() == 0 {
        b == a1
    } else {
        let a2 = AppView { search: SearchView { results: Seq::empty(), current_result: 0, ..a1.search }, ..a1 };
        if is_hex_query(q) {
            b == search_finished(with_results(a2, address_results(a2, q)))
        } else if a.current_view == DetailView::LayoutMap {
            exists|regs: Seq<RegionView>| #[trigger] layout_of(a.data, regs) && layout_searched(a2, regs, lowercase(q), b)
        } else {
            exists|r: Seq<usize>| #[trigger] text_results(a2, q, r) && b == search_finished(with_results(a2, r))
        }
    }
}

/// Two strictly increasing lists that hold the same values are equal.
proof fn lemma_increasing_unique(r1: Seq<usize>, r2: Seq<usize>)
    requires
        strictly_increasing(r1),
        strictly_increasing(r2),
        forall|y: usize| r1.contains(y) <==> r2.contains(y),
    ensures
        r1 == r2,
    decreases r1.len(),
{
    if r1.len() == 0 {
        if r2.len() > 0 {
            assert(r2.contains(r2[0]));
        }
    } else {
        assert(r1.contains(r1[0]));
        assert(r2.len() > 0);
        assert(r2.contains(r2[0]));
        let j = choose|j: int| 0 <= j < r2.len() && r2[j] == r1[0];
        let k = choose|k: int| 0 <= k < r1.len() && r1[k] == r2[0];
        assert(r1[0] == r2[0]) by {
            if j > 0 {
                assert(r2[0] < r2[j]);
                assert(r1[0] <= r1[k]);
            }
        }
        let s1 = r1.drop_first();
        let s2 = r2.drop_first();
        assert forall|y: usize| s1.contains(y) <==> s2.contains(y) by {
            if s1.contains(y) {
                let i = choose|i: int| 0 <= i < s1.len() && s1[i] == y;
                assert(r1[i + 1] == y && r1[0] < y);
                assert(r1.contains(y));
                let m = choose|m: int| 0 <= m < r2.len() && r2[m] == y;
                assert(m > 0);
                assert(s2[m - 1] == y);
            }
            if s2.contains(y) {
                let i = choose|i: int| 0 <= i < s2.len() && s2[i] == y;
                assert(r2[i + 1] == y && r2[0] < y);
                assert(r2.contains(y));
                let m = choose|m: int| 0 <= m < r1.len() && r1[m] == y;
                assert(m > 0);
                assert(s1[m - 1] == y);
            }
        }
        lemma_increasing_unique(s1, s2);
        assert(r1 =~= seq![r1[0]] + s1);
        assert(r2 =~= seq![r2[0]] + s2);
    }
}

/// A text search's matches are fixed by the panel and the query.
proof fn lemma_text_results_unique(a: AppView, q: Seq<char>, r1: Seq<usize>, r2: Seq<usize>)
    requires
        text_results(a, q, r1),
        text_results(a, q, r2),
    ensures
        r1 == r2,
{
    if a.current_view == DetailView::Hexdump && hex_section_index(a) is Some {
        lemma_increasing_unique(r1, r2);
    }
}

/// Law: a search's outcome is fixed by the state it starts from: two runs
/// of the same search end in the same state.
pub proof fn lemma_searched_unique(a: AppView, b1: AppView, b2: AppView)
    requires
        searched(a, b1),
        searched(a, b2),
    ensures
        b1 == b2,
{
    reveal(searched);
    let q = a.search.input;
    let a1 = AppView { search: SearchView { query: q, ..a.search }, ..a };
    let a2 = AppView { search: SearchView { results: Seq::empty(), current_result: 0, ..a1.search }, ..a1 };
    if q.len() > 0 && !is_hex_query(q) && a.current_view == DetailView::LayoutMap {
        let g1 = choose|regs: Seq<RegionView>| #[trigger] layout_of(a.data, regs) && layout_searched(a2, regs, lowercase(q), b1);
        let g2 = choose|regs: Seq<RegionView>| #[trigger] layout_of(a.data, regs) && layout_searched(a2, regs, lowercase(q), b2);
        crate::ui::layout_map::lemma_layout_unique(a.data, g1, g2);
    } else if q.len() > 0 && !is_hex_query(q) {
        let r1 = choose|r: Seq<usize>| #[trigger] text_results(a2, q, r) && b1 == search_finished(with_results(a2, r));
        let r2 = choose|r: Seq<usize>| #[trigger] text_results(a2, q, r) && b2 == search_finished(with_results(a2, r));
        lemma_text_results_unique(a2, q, r1, r2);
    }
}

/// The viewer after moving on to the next match, wrapping round to the
/// first; nothing changes without matches.
pub open spec fn result_advanced(a: AppView) -> AppView {
    let n = a.search.results.len();
    if n == 0 {
        a
    } else {
        result_applied(
            AppView { search: SearchView { current_result: ((a.search.current_result + 1) % (n as int)) as usize, ..a.search }, ..a },
        )
    }
}

/// The viewer after moving back to the previous match, wrapping round to
/// the last; nothing changes without matches.
pub open spec fn result_retreated(a: AppView) -> AppView {
    let n = a.search.results.len();
    if n == 0 {
        a
    } else {
        result_applied(
            AppView {
                search: SearchView {
                    current_result: if a.search.current_result == 0 {
                        (n - 1) as usize
                    } else {
                        (a.search.current_result - 1) as usize
                    },
                    ..a.search
                },
                ..a
            },
        )
    }
}

/// The section whose body is selected, if any.
fn get_current_section_index(app: &App) -> (r: Option<usize>)
    ensures
        r == hex_section_index(app@),
{
    match app.tree.selected_node {
        Some(TreeNodeType::SectionBody { index }) => Some(index),
        _ => None,
    }
}

/// The section whose body is selected, if any.
fn get_current_section(app: &App) -> (r: Option<&SectionInfo>)
    requires
        app_ok(app@),
    ensures
        match hex_section_index(app@) {
            Some(i) => r matches Some(s) && s@ == app@.data.sections[i as int],
            None => r is None,
        },
{
    app.get_hex_section()
}

/// The overview's lines as search reads them.
pub fn build_overview_lines(app: &App) -> (r: Vec<String>)
    requires
        app_ok(app@),
        app@.data.raw_bytes.len() >= 16,
    ensures
        lines_view(r@) == overview_lines(app@.data),
{
    overview_search_lines(&app.data)
}


fn find_insn(insns: &Vec<DisasmInstruction>, addr: u64) -> (r: Option<usize>)
    ensures
        match r {
            Some(k) => insn_at(insns_view(insns@), addr, 0) == k,
            None => insn_at(insns_view(insns@), addr, 0) == -1,
        },
{
    let ghost v = insns_view(insns@);
    let mut k: usize = 0;
    while k < insns.len()
        invariant
            v == insns_view(insns@),
            k <= insns@.len(),
            insn_at(v, addr, 0) == insn_at(v, addr, k as int),
        decreases insns@.len() - k,
    {
        assert(v[k as int] == insns@[k as int]@);
        if insns[k].address == addr {
            return Some(k);
        }
        k = k + 1;
    }
    None
}

fn locate_function(fs: &Vec<FunctionInfo>, addr: u64) -> (r: Option<(usize, usize)>)
    ensures
        match r {
            Some((f, k)) => f < fs@.len() && f < usize::MAX && function_with(functions_view(fs@), addr, 0) == f && insn_at(
                functions_view(fs@)[f as int].instructions,
                addr,
                0,
            ) == k,
            None => function_with(functions_view(fs@), addr, 0) == -1,
        },
{
    let ghost v = functions_view(fs@);
    let mut f: usize = 0;
    while f < fs.len()
        invariant
            v == functions_view(fs@),
            f <= fs@.len(),
            function_with(v, addr, 0) == function_with(v, addr, f as int),
        decreases fs@.len() - f,
    {
        assert(v[f as int] == fs@[f as int]@);
        match find_insn(&fs[f].instructions, addr) {
            Some(k) => {
                return Some((f, k));
            },
            None => {},
        }
        f = f + 1;
    }
    None
}

/// Moves to the current match (see `result_applied`).
fn apply_search_result(app: &mut App)
    ensures
        final(app)@ == result_applied(old(app)@),
        app_ok(old(app)@) ==> app_ok(final(app)@),
{
    proof {
        reveal(result_applied);
    }
    if app.search.current_result < app.search.results.len() {
        let pos = app.search.results[app.search.current_result];
        match app.current_view {
            DetailView::Overview => {
                app.overview.selected_line = pos;
            },
            DetailView::Hexdump => {
                app.hexdump.cursor_offset = pos;
                app.hexdump.scroll = pos / 16;
            },
            DetailView::Disassembly => {
                let found = match &app.disasm_cache {
                    Some(d) => if pos < d.all_instructions.len() {
                        assert(insns_view(d.all_instructions@)[pos as int] == d.all_instructions@[pos as int]@);
                        locate_function(&d.functions, d.all_instructions[pos].address)
                    } else {
                        None
                    },
                    None => None,
                };
                if let Some((f, k)) = found {
                    app.disasm.selected_function = f;
                    app.disasm.scroll = k;
                }
            },
            DetailView::LayoutMap => {
                app.layout_map.selected_row = pos;
            },
            DetailView::Strings => {
                app.strings.selected_line = pos;
            },
            _ => {},
        }
    }
}

/// Moves on to the next match, wrapping round (see `result_advanced`).
pub fn next_result(app: &mut App)
    requires
        app_ok(old(app)@),
    ensures
        final(app)@ == result_advanced(old(app)@),
        app_ok(final(app)@),
{
    if app.search.results.len() == 0 {
        return;
    }
    let n = app.search.results.len();
    app.search.current_result = (app.search.current_result + 1) % n;
    assert(app.search.current_result < n);
    apply_search_result(app);
}

/// Moves back to the previous match, wrapping round (see
/// `result_retreated`).
pub fn prev_result(app: &mut App)
    requires
        app_ok(old(app)@),
    ensures
        final(app)@ == result_retreated(old(app)@),
        app_ok(final(app)@),
{
    if app.search.results.len() == 0 {
        return;
    }
    app.search.current_result = if app.search.current_result == 0 {
        app.search.results.len() - 1
    } else {
        app.search.current_result - 1
    };
    apply_search_result(app);
}

/// Whether `q` is an address query (see `is_hex_query`).
pub fn is_hex_query_str(q: &str) -> (r: bool)
    ensures
        r == is_hex_query(q@),
{
    q.unicode_len() >= 2 && q.get_char(0) == '0' && (q.get_char(1) == 'x' || q.get_char(1) == 'X')
}

fn region_labels(regions: &Vec<crate::ui::layout_map::LayoutRegion>) -> (r: Vec<String>)
    ensures
        lines_view(r@) == region_labels_of(regions_view(regions@)),
{
    let mut r: Vec<String> = Vec::new();
    let mut i: usize = 0;
    while i < regions.len()
        invariant
            i <= regions@.len(),
            lines_view(r@) == regions_view(regions@).subrange(0, i as int).map_values(|g: RegionView| g.label),
        decreases regions@.len() - i,
    {
        let ghost before = r@;
        let label = regions[i].label.clone();
        r.push(label);
        assert(regions_view(regions@)[i as int] == regions@[i as int]@);
        assert(lines_view(r@) =~= lines_view(before).push(regions@[i as int].label@));
        i = i + 1;
        assert(lines_view(r@) =~= regions_view(regions@).subrange(0, i as int).map_values(
            |g: RegionView| g.label,
        ));
    }
    assert(regions_view(regions@).subrange(0, regions@.len() as int) =~= regions_view(regions@));
    assert(lines_view(r@) =~= region_labels_of(regions_view(regions@)));
    r
}

fn string_texts(strs: &Vec<(usize, String)>) -> (r: Vec<String>)
    ensures
        lines_view(r@) == string_texts_of(found_view(strs@)),
{
    let mut r: Vec<String> = Vec::new();
    let mut i: usize = 0;
    while i < strs.len()
        invariant
            i <= strs@.len(),
            lines_view(r@) == found_view(strs@).subrange(0, i as int).map_values(|p: (usize, Seq<char>)| p.1),
        decreases strs@.len() - i,
    {
        let ghost before = r@;
        let text = strs[i].1.clone();
        r.push(text);
        assert(found_view(strs@)[i as int] == (strs@[i as int].0, strs@[i as int].1@));
        assert(lines_view(r@) =~= lines_view(before).push(strs@[i as int].1@));
        i = i + 1;
        assert(lines_view(r@) =~= found_view(strs@).subrange(0, i as int).map_values(
            |p: (usize, Seq<char>)| p.1,
        ));
    }
    assert(found_view(strs@).subrange(0, strs@.len() as int) =~= found_view(strs@));
    assert(lines_view(r@) =~= string_texts_of(found_view(strs@)));
    r
}

fn address_search(app: &mut App, query: &String)
    requires
        app_ok(old(app)@),
        is_hex_query(query@),
        old(app)@.search.results == Seq::<usize>::empty(),
    ensures
        final(app)@ == with_results(old(app)@, address_results(old(app)@, query@)),
{
    let n = query.as_str().unicode_len();
    let digits = query.as_str().substring_char(2, n);
    match parse_hex(digits) {
        Some(addr) => match app.current_view {
            DetailView::Hexdump => {
                if let Some(s) = get_current_section(app) {
                    let off = addr.saturating_sub(s.addr);
                    if off < s.size {
                        let mut r: Vec<usize> = Vec::new();
                        r.push(off as usize);
                        app.search.results = r;
                    }
                }
            },
            DetailView::Disassembly => {
                let found = match &app.disasm_cache {
                    Some(d) => find_insn(&d.all_instructions, addr),
                    None => None,
                };
                if let Some(k) = found {
                    let mut r: Vec<usize> = Vec::new();
                    r.push(k);
                    app.search.results = r;
                }
            },
            _ => {},
        },
        None => {},
    }
}

fn layout_search(app: &mut App, query: &String)
    requires
        app_ok(old(app)@),
    ensures
        exists|regs: Seq<RegionView>| #[trigger] layout_of(old(app)@.data, regs) && layout_searched(old(app)@, regs, lowercase(query@), final(app)@),
{
    let regions = build_regions(&app.data);
    let ghost regs = regions_view(regions@);
    let labels = region_labels(&regions);
    let lq = to_lower(query.as_str());
    let r = matching_texts(&labels, lq.as_str());
    let ghost rv = r@;
    let first = if r.len() > 0 { Some(r[0]) } else { None };
    app.search.results = r;
    match first {
        Some(row) => app.layout_map.selected_row = row,
        None => app.search.no_matches_timer = 120,
    }
    assert(lines_view(labels@).len() == labels@.len());
    assert(region_labels_of(regs).len() == regs.len());
    assert(lq@ == lowercase(query@));
    assert(rv == indices_where(regs.len() as int, text_matches(region_labels_of(regs), lowercase(query@))));
    assert(app@.search.results == rv);
    assert(layout_searched(old(app)@, regs, lowercase(query@), app@));
    assert(layout_of(old(app)@.data, regs));
}

fn text_search(app: &mut App, query: &String)
    requires
        app_ok(old(app)@),
        old(app)@.current_view == DetailView::Overview ==> old(app)@.data.raw_bytes.len() >= 16,
        old(app)@.search.results == Seq::<usize>::empty(),
    ensures
        text_results(old(app)@, query@, final(app)@.search.results),
        final(app)@ == with_results(old(app)@, final(app)@.search.results),
{
    let lq = to_lower(query.as_str());
    match app.current_view {
        DetailView::Overview => {
            let lines = build_overview_lines(app);
            let r = matching_texts(&lines, lq.as_str());
            assert(r@ == indices_where(overview_lines(app@.data).len() as int, text_matches(overview_lines(app@.data), lowercase(query@))));
            app.search.results = r;
            assert(text_results(old(app)@, query@, app@.search.results));
        },
        DetailView::Disassembly => {
            let found = match &app.disasm_cache {
                Some(d) => Some(matching_insns(&d.all_instructions, lq.as_str())),
                None => None,
            };
            if let Some(r) = found {
                app.search.results = r;
            }
            assert(text_results(old(app)@, query@, app@.search.results));
        },
        DetailView::Hexdump => {
            if let Some(i) = get_current_section_index(app) {
                proof {
                    crate::app::lemma_selected_ok(app@);
                }
                let r = hexdump_hits(app.data.sections[i].data.as_slice(), query.as_str());
                app.search.results = r;
            }
            assert(text_results(old(app)@, query@, app@.search.results));
        },
        DetailView::Strings => {
            if let Some(i) = get_current_section_index(app) {
                proof {
                    crate::app::lemma_selected_ok(app@);
                }
                let strs = extract_strings(app.data.sections[i].data.as_slice());
                let texts = string_texts(&strs);
                assert(lines_view(texts@).len() == texts@.len());
                assert(string_texts_of(found_view(strs@)).len() == strs@.len());
                assert(found_view(strs@).len() == strs@.len());
                app.search.results = matching_texts(&texts, lq.as_str());
            }
            assert(text_results(old(app)@, query@, app@.search.results));
        },
        _ => {
            assert(text_results(old(app)@, query@, app@.search.results));
        },
    }
}

fn finish_search(app: &mut App)
    ensures
        final(app)@ == search_finished(old(app)@),
        app_ok(old(app)@) ==> app_ok(final(app)@),
{
    if app.search.results.len() == 0 {
        app.search.no_matches_timer = 120;
    } else {
        apply_search_result(app);
    }
}

/// The search typed at the prompt reads the overview's lines, which begin
/// with the file's 16 identification bytes.
pub open spec fn search_reads_header(a: AppView) -> bool {
    &&& a.current_view == DetailView::Overview
    &&& a.search.input.len() > 0
    &&& !is_hex_query(a.search.input)
}

/// Runs the search typed at the prompt (see `searched`).
#[verifier::rlimit(40)]
pub fn do_search(app: &mut App)
    requires
        app_ok(old(app)@),
        search_reads_header(old(app)@) ==> old(app)@.data.raw_bytes.len() >= 16,
    ensures
        searched(old(app)@, final(app)@),
        app_ok(final(app)@),
{
    proof {
        reveal(searched);
    }
    let query = app.search.input.clone();
    app.search.query = app.search.input.clone();
    if query.as_str().unicode_len() == 0 {
        return;
    }
    app.search.results.clear();
    app.search.current_result = 0;
    let ghost a2 = app@;
    if is_hex_query_str(query.as_str()) {
        address_search(app, &query);
        finish_search(app);
    } else if app.current_view == DetailView::LayoutMap {
        layout_search(app, &query);
    } else {
        text_search(app, &query);
        let ghost r = app@.search.results;
        finish_search(app);
        assert(text_results(a2, query@, r));
    }
}

proof fn lemma_applied_keeps_search(a: AppView)
    ensures
        result_applied(a).search == a.search,
{
    reveal(result_applied);
}

proof fn lemma_wrap(c: int, n: int)
    requires
        0 <= c < n,
    ensures
        (c + 1) % n == if c + 1 == n { 0 } else { c + 1 },
{
    if c + 1 == n {
        assert((c + 1) % n == 0) by (nonlinear_arith)
            requires
                c + 1 == n,
                n > 0,
        ;
    } else {
        assert((c + 1) % n == c + 1) by (nonlinear_arith)
            requires
                0 <= c + 1 < n,
        ;
    }
}

/// Law: moving to the next match and back to the previous one returns to
/// the match one started from (the matches themselves are untouched).
pub proof fn lemma_next_then_prev(a: AppView)
    requires
        a.search.current_result < a.search.results.len(),
        a.search.results.len() <= usize::MAX,
    ensures
        result_retreated(result_advanced(a)).search == a.search,
{
    let n = a.search.results.len() as int;
    let c = a.search.current_result as int;
    lemma_wrap(c, n);
    let b = AppView { search: SearchView { current_result: ((c + 1) % n) as usize, ..a.search }, ..a };
    lemma_applied_keeps_search(b);
    let c2 = result_advanced(a);
    assert(c2.search == b.search);
    let d = AppView {
        search: SearchView {
            current_result: if c2.search.current_result == 0 { (n - 1) as usize } else { (c2.search.current_result - 1) as usize },
            ..c2.search
        },
        ..c2
    };
    lemma_applied_keeps_search(d);
    assert(d.search == a.search);
}

/// Law: moving back to the previous match and on to the next one returns
/// to the match one started from.
pub proof fn lemma_prev_then_next(a: AppView)
    requires
        a.search.current_result < a.search.results.len(),
        a.search.results.len() <= usize::MAX,
    ensures
        result_advanced(result_retreated(a)).search == a.search,
{
    let n = a.search.results.len() as int;
    let c = a.search.current_result as int;
    let p = if c == 0 { n - 1 } else { c - 1 };
    let b = AppView { search: SearchView { current_result: p as usize, ..a.search }, ..a };
    lemma_applied_keeps_search(b);
    let c2 = result_retreated(a);
    assert(c2.search == b.search);
    lemma_wrap(p, n);
    let d = AppView { search: SearchView { current_result: ((p + 1) % n) as usize, ..c2.search }, ..c2 };
    lemma_applied_keeps_search(d);
    assert(d.search == a.search);
}


/// The rest of a line from byte `last` on, unmarked, when anything is left.
pub open spec fn tail_piece(last: int, n: int) -> Seq<(usize, usize, bool)> {
    if last < n {
        seq![(last as usize, n as usize, false)]
    } else {
        Seq::empty()
    }
}

/// The pieces of a line from byte `last` on: the lowercase line `ll` is
/// searched for the lowercase query `lq` from `last`; the text before a
/// match is unmarked, the `qlen` bytes from the match on are marked, and
/// the search goes on after them. The search stops once `last` passes the
/// end of `ll` (or a match would end past `usize::MAX`).
pub open spec fn pieces_from(ll: Seq<u8>, lq: Seq<u8>, qlen: int, n: int, last: int) -> Seq<(usize, usize, bool)>
    decreases (if 0 <= last <= ll.len() { ll.len() + 1 - last } else { 0 }),
{
    if qlen <= 0 || last < 0 || last > ll.len() {
        tail_piece(last, n)
    } else {
        let pos = first_occurrence(ll.subrange(last, ll.len() as int), lq, 0);
        if pos < 0 {
            tail_piece(last, n)
        } else {
            let start = last + pos;
            let end = start + qlen;
            if end > usize::MAX {
                tail_piece(last, n)
            } else {
            (if start > last {
                seq![(last as usize, start as usize, false)]
            } else {
                Seq::empty()
            }) + seq![(start as usize, end as usize, true)] + pieces_from(ll, lq, qlen, n, end)
            }
        }
    }
}

/// How a line is cut to show the matches of `query`, as byte ranges with a
/// mark for the matches (see `pieces_from`); without a query, the whole
/// line unmarked.
pub open spec fn highlight_pieces(line: Seq<char>, query: Seq<char>) -> Seq<(usize, usize, bool)> {
    let n = encode_utf8(line).len() as int;
    if query.len() == 0 {
        seq![(0usize, n as usize, false)]
    } else {
        pieces_from(
            encode_utf8(lowercase(line)),
            encode_utf8(lowercase(query)),
            encode_utf8(query).len() as int,
            n,
            0,
        )
    }
}

/// Cuts `line` into byte ranges for showing the matches of `query` (see
/// `highlight_pieces`); the caller takes the text of each range from
/// `line`.
pub fn highlight_ranges(line: &str, query: &str) -> (r: Vec<(usize, usize, bool)>)
    ensures
        r@ == highlight_pieces(line@, query@),
{
    let n = line.as_bytes().len();
    let mut r: Vec<(usize, usize, bool)> = Vec::new();
    if query.unicode_len() == 0 {
        r.push((0, n, false));
        assert(r@ =~= highlight_pieces(line@, query@));
        return r;
    }
    let lower_line = to_lower(line);
    let ll = lower_line.as_str().as_bytes();
    let lower_query = to_lower(query);
    let lq = lower_query.as_str().as_bytes();
    let qlen = query.as_bytes().len();
    let ghost total = highlight_pieces(line@, query@);
    let mut last: usize = 0;
    proof {
        assert(encode_utf8(query@).len() > 0) by {
            vstd::utf8::encode_utf8_first_scalar(query@);
        }
    }
    loop
        invariant
            qlen == encode_utf8(query@).len(),
            qlen > 0,
            n == encode_utf8(line@).len(),
            ll@ == encode_utf8(lowercase(line@)),
            lq@ == encode_utf8(lowercase(query@)),
            total == highlight_pieces(line@, query@),
            r@ + pieces_from(ll@, lq@, qlen as int, n as int, last as int) == total,
        ensures
            r@ + tail_piece(last as int, n as int) == total,
        decreases (if last <= ll@.len() { ll@.len() + 1 - last } else { 0 }),
    {
        let len = ll.len();
        if last > len {
            break;
        }
        let rest = vstd::slice::slice_subrange(ll, last, len);
        match find_bytes(rest, lq) {
            None => {
                break;
            },
            Some(pos) => {
                let start = last + pos;
                if start > usize::MAX - qlen {
                    break;
                }
                let end = start + qlen;
                let ghost before = r@;
                if start > last {
                    r.push((last, start, false));
                }
                r.push((start, end, true));
                proof {
                    let head: Seq<(usize, usize, bool)> = if start > last {
                        seq![(last, start, false)]
                    } else {
                        Seq::empty()
                    };
                    assert(r@ =~= before + head + seq![(start, end, true)]);
                    assert(pieces_from(ll@, lq@, qlen as int, n as int, last as int) == head + seq![(start, end, true)]
                        + pieces_from(ll@, lq@, qlen as int, n as int, end as int));
                    assert(r@ + pieces_from(ll@, lq@, qlen as int, n as int, end as int) =~= before + pieces_from(
                        ll@,
                        lq@,
                        qlen as int,
                        n as int,
                        last as int,
                    ));
                }
                last = end;
            },
        }
    }
    let ghost before = r@;
    if last < n {
        r.push((last, n, false));
    }
    assert(r@ =~= before + tail_piece(last as int, n as int));
    r
}


/// What the search prompt shows: the typed text, then the "no matches"
/// notice while it is up, else the current match's number and the number
/// of matches when there are any, else a cursor.
pub open spec fn prompt_text(s: SearchView) -> Seq<char> {
    if s.no_matches_timer > 0 {
        "/"@ + s.input + "  [No matches]"@
    } else if s.results.len() > 0 {
        "/"@ + s.input + "  ["@ + crate::text::dec_seq((s.current_result + 1) as nat) + "/"@ + crate::text::dec_seq(
            s.results.len(),
        ) + "]"@
    } else {
        "/"@ + s.input + "_"@
    }
}

impl SearchState {
    /// What the search prompt shows (see `prompt_text`).
    pub fn prompt(&self) -> (r: String)
        requires
            self.current_result < usize::MAX,
        ensures
            r@ == prompt_text(self@),
    {
        proof {
            reveal_strlit("/");
            reveal_strlit("  [No matches]");
            reveal_strlit("  [");
            reveal_strlit("]");
            reveal_strlit("_");
        }
        let mut r = String::from_str("/");
        r.append(self.input.as_str());
        if self.no_matches_timer > 0 {
            r.append("  [No matches]");
        } else if self.results.len() > 0 {
            r.append("  [");
            crate::text::push_dec(&mut r, (self.current_result + 1) as u64);
            r.append("/");
            crate::text::push_dec(&mut r, self.results.len() as u64);
            r.append("]");
        } else {
            r.append("_");
        }
        assert(r@ =~= prompt_text(self@));
        r
    }
}


proof fn lemma_hex_digit_value(d: nat)
    requires
        d < 16,
    ensures
        hex_digit_value(crate::text::hex_digit(d)) == Some(d),
{
}

/// The digits that `{:x}` writes for `n` read back as `n`.
pub proof fn lemma_hex_digits_round_trip(n: nat)
    ensures
        hex_digits_value(crate::text::hex_seq(n)) == Some(n),
    decreases n,
{
    let s = crate::text::hex_seq(n);
    if n < 16 {
        lemma_hex_digit_value(n);
        assert(s.drop_last() =~= Seq::<char>::empty());
        assert(hex_digits_value(Seq::<char>::empty()) == Some(0nat));
        assert(s.last() == crate::text::hex_digit(n));
    } else {
        lemma_hex_digits_round_trip(n / 16);
        lemma_hex_digit_value(n % 16);
        assert(s.drop_last() =~= crate::text::hex_seq(n / 16));
        assert(s.last() == crate::text::hex_digit(n % 16));
        assert((n / 16) * 16 + n % 16 == n) by (nonlinear_arith);
    }
}

/// Law: an address as the viewer writes it in hexadecimal (`{:x}`, as in
/// its labels) reads back, after `0x`, as the same address.
pub proof fn lemma_parse_hex_round_trip(v: u64)
    ensures
        parse_hex_u64(crate::text::hex_seq(v as nat)) == Some(v),
{
    lemma_hex_digits_round_trip(v as nat);
    let s = crate::text::hex_seq(v as nat);
    crate::text::lemma_hex_seq_digits(v as nat);
    assert(s.len() > 0 && s[0] != '+');
}

} // verus!
