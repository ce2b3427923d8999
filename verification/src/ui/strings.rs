//! The strings panel: its state, and the strings found in a section.

use vstd::prelude::*;

use crate::text::push_char;

verus! {

/// Scroll position and highlighted line of the strings panel.
#[derive(Debug, Clone, Copy, PartialEq, Eq, Structural)]
pub struct StringsState {
    pub scroll: usize,
    pub selected_line: usize,
}

impl StringsState {
    /// The initial state: top of the panel, first line.
    pub fn new() -> (r: Self)
        ensures
            r == (StringsState { scroll: 0, selected_line: 0 }),
    {
        StringsState { scroll: 0, selected_line: 0 }
    }
}


/// A byte shown as a character: printable ASCII or the space.
pub open spec fn is_text_byte(b: u8) -> bool {
    0x20 <= b <= 0x7e
}

/// Where the run of text bytes that ends just before position `e` starts.
pub open spec fn run_start(data: Seq<u8>, e: int) -> int
    decreases e,
{
    if 0 < e <= data.len() && is_text_byte(data[e - 1]) {
        run_start(data, e - 1)
    } else {
        e
    }
}

/// A string ends at position `e`: a NUL byte right after a run of at least
/// one text byte.
pub open spec fn ends_string(data: Seq<u8>, e: int) -> bool {
    0 <= e < data.len() && data[e] == 0 && e - run_start(data, e) >= 1
}

/// The characters of text bytes.
pub open spec fn bytes_text(bs: Seq<u8>) -> Seq<char> {
    bs.map_values(|b: u8| b as char)
}

/// The string that ends at `e`, with the offset where it starts.
pub open spec fn string_at(data: Seq<u8>, e: int) -> (usize, Seq<char>) {
    (run_start(data, e) as usize, bytes_text(data.subrange(run_start(data, e), e)))
}

/// The strings that end before position `n`, in order.
pub open spec fn strings_upto(data: Seq<u8>, n: int) -> Seq<(usize, Seq<char>)>
    decreases n,
{
    if n <= 0 {
        Seq::empty()
    } else {
        strings_upto(data, n - 1) + if ends_string(data, n - 1) {
            seq![string_at(data, n - 1)]
        } else {
            Seq::empty()
        }
    }
}

/// The strings of a section's bytes: each run of at least one text byte
/// ended by a NUL byte, with the offset where it starts, in order. A run
/// cut off by another byte, or by the end of the data, is no string.
pub open spec fn strings_in(data: Seq<u8>) -> Seq<(usize, Seq<char>)> {
    strings_upto(data, data.len() as int)
}

/// The abstract values of a list of found strings.
pub open spec fn found_view(v: Seq<(usize, String)>) -> Seq<(usize, Seq<char>)> {
    v.map_values(|p: (usize, String)| (p.0, p.1@))
}

fn text_of(data: &[u8], from: usize, to: usize) -> (r: String)
    requires
        from <= to <= data@.len(),
    ensures
        r@ == bytes_text(data@.subrange(from as int, to as int)),
{
    let mut r = String::new();
    let mut i: usize = from;
    while i < to
        invariant
            from <= i <= to <= data@.len(),
            r@ == bytes_text(data@.subrange(from as int, i as int)),
        decreases to - i,
    {
        push_char(&mut r, data[i] as char);
        i = i + 1;
        assert(r@ =~= bytes_text(data@.subrange(from as int, i as int)));
    }
    r
}

/// The strings of a section's bytes (see `strings_in`).
pub fn extract_strings(data: &[u8]) -> (r: Vec<(usize, String)>)
    ensures
        found_view(r@) == strings_in(data@),
{
    let mut results: Vec<(usize, String)> = Vec::new();
    let mut start: Option<usize> = None;
    let mut i: usize = 0;
    while i < data.len()
        invariant
            i <= data@.len(),
            0 <= run_start(data@, i as int) <= i,
            start == if run_start(data@, i as int) < i {
                Some(run_start(data@, i as int) as usize)
            } else {
                None
            },
            found_view(results@) == strings_upto(data@, i as int),
        decreases data@.len() - i,
    {
        let byte = data[i];
        let ghost before = results@;
        if 0x20 <= byte && byte <= 0x7e {
            if start.is_none() {
                start = Some(i);
            }
        } else if byte == 0 {
            if let Some(s) = start {
                let text = text_of(data, s, i);
                results.push((s, text));
                start = None;
            }
        } else {
            start = None;
        }
        proof {
            assert(found_view(results@) =~= strings_upto(data@, i + 1));
        }
        i = i + 1;
    }
    results
}


proof fn lemma_run_start(data: Seq<u8>, e: int)
    requires
        0 <= e <= data.len(),
    ensures
        0 <= run_start(data, e) <= e,
        forall|j: int| run_start(data, e) <= j < e ==> is_text_byte(#[trigger] data[j]),
    decreases e,
{
    if 0 < e && is_text_byte(data[e - 1]) {
        lemma_run_start(data, e - 1);
    }
}

proof fn lemma_strings_upto(data: Seq<u8>, n: int, k: int)
    requires
        0 <= n <= data.len(),
        0 <= k < strings_upto(data, n).len(),
    ensures
        exists|e: int| 0 <= e < n && ends_string(data, e) && strings_upto(data, n)[k] == #[trigger] string_at(data, e),
    decreases n,
{
    if n > 0 {
        let prev = strings_upto(data, n - 1);
        if k < prev.len() {
            lemma_strings_upto(data, n - 1, k);
            let e = choose|e: int| 0 <= e < n - 1 && ends_string(data, e) && prev[k] == #[trigger] string_at(data, e);
            assert(strings_upto(data, n)[k] == prev[k]);
            assert(0 <= e < n && ends_string(data, e) && strings_upto(data, n)[k] == string_at(data, e));
        } else {
            assert(strings_upto(data, n)[k] == string_at(data, n - 1));
        }
    }
}

/// Law: every string found holds at least one character, each printable
/// ASCII or a space, taken from the data at its offset, and a NUL byte
/// follows it there.
pub proof fn lemma_found_strings(data: Seq<u8>, k: int)
    requires
        0 <= k < strings_in(data).len(),
        data.len() <= usize::MAX,
    ensures
        ({
            let (off, text) = strings_in(data)[k];
            &&& text.len() >= 1
            &&& off + text.len() < data.len()
            &&& data[off + text.len()] == 0
            &&& forall|j: int| 0 <= j < text.len() ==> ' ' <= #[trigger] text[j] <= '~' && text[j] == data[off + j] as char
        }),
{
    lemma_strings_upto(data, data.len() as int, k);
    let e = choose|e: int| 0 <= e < data.len() && ends_string(data, e) && strings_in(data)[k] == #[trigger] string_at(data, e);
    lemma_run_start(data, e);
    let s = run_start(data, e);
    let (off, text) = strings_in(data)[k];
    assert(off == s && text == bytes_text(data.subrange(s, e)));
    assert forall|j: int| 0 <= j < text.len() implies ' ' <= #[trigger] text[j] <= '~' && text[j] == data[off + j] as char by {
        assert(is_text_byte(data[s + j]));
    }
}

} // verus!
