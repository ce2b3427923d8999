//! Text building blocks: hexadecimal and decimal rendering of integers.

use vstd::prelude::*;

verus! {

/// The lowercase hexadecimal digit for `d` (which must be below 16).
pub open spec fn hex_digit(d: nat) -> char {
    if d < 10 {
        ((d + 48) as u8) as char
    } else {
        ((d - 10 + 97) as u8) as char
    }
}

/// The lowercase hexadecimal rendering of `n` without leading zeros, as
/// `{:x}` writes it.
pub open spec fn hex_seq(n: nat) -> Seq<char>
    decreases n,
{
    if n < 16 {
        seq![hex_digit(n)]
    } else {
        hex_seq(n / 16).push(hex_digit(n % 16))
    }
}

/// The hexadecimal rendering of `n` is not empty, and its characters are
/// digits and lowercase letters.
pub proof fn lemma_hex_seq_digits(n: nat)
    ensures
        hex_seq(n).len() > 0,
        forall|i: int| 0 <= i < hex_seq(n).len() ==> ('0' <= #[trigger] hex_seq(n)[i] <= '9') || ('a' <= hex_seq(n)[i] <= 'f'),
    decreases n,
{
    if n >= 16 {
        lemma_hex_seq_digits(n / 16);
        let s = hex_seq(n);
        assert forall|i: int| 0 <= i < s.len() implies ('0' <= #[trigger] s[i] <= '9') || ('a' <= s[i] <= 'f') by {
            if i < s.len() - 1 {
                assert(s[i] == hex_seq(n / 16)[i]);
            }
        }
    }
}

fn hex_digit_str(d: u64) -> (r: &'static str)
    requires
        d < 16,
    ensures
        r@ == seq![hex_digit(d as nat)],
{
    proof {
        reveal_strlit("0");
        reveal_strlit("1");
        reveal_strlit("2");
        reveal_strlit("3");
        reveal_strlit("4");
        reveal_strlit("5");
        reveal_strlit("6");
        reveal_strlit("7");
        reveal_strlit("8");
        reveal_strlit("9");
        reveal_strlit("a");
        reveal_strlit("b");
        reveal_strlit("c");
        reveal_strlit("d");
        reveal_strlit("e");
        reveal_strlit("f");
    }
    match d {
        0 => "0",
        1 => "1",
        2 => "2",
        3 => "3",
        4 => "4",
        5 => "5",
        6 => "6",
        7 => "7",
        8 => "8",
        9 => "9",
        10 => "a",
        11 => "b",
        12 => "c",
        13 => "d",
        14 => "e",
        _ => "f",
    }
}

/// Appends the lowercase hexadecimal rendering of `n` to `s`.
pub fn push_hex(s: &mut String, n: u64)
    ensures
        final(s)@ == old(s)@ + hex_seq(n as nat),
    decreases n,
{
    if n >= 16 {
        push_hex(s, n / 16);
    }
    s.append(hex_digit_str(n % 16));
    assert(old(s)@ + hex_seq(n as nat) =~= s@);
}


/// The decimal rendering of `n` without leading zeros, as `{}` writes it.
pub open spec fn dec_seq(n: nat) -> Seq<char>
    decreases n,
{
    if n < 10 {
        seq![hex_digit(n)]
    } else {
        dec_seq(n / 10).push(hex_digit(n % 10))
    }
}

/// Appends the decimal rendering of `n` to `s`.
pub fn push_dec(s: &mut String, n: u64)
    ensures
        final(s)@ == old(s)@ + dec_seq(n as nat),
    decreases n,
{
    if n >= 10 {
        push_dec(s, n / 10);
    }
    s.append(hex_digit_str(n % 10));
    assert(old(s)@ + dec_seq(n as nat) =~= s@);
}

/// `count` copies of `c`.
pub open spec fn repeat_char(c: char, count: nat) -> Seq<char> {
    Seq::new(count, |i: int| c)
}

/// `t` left-aligned in a field of `width` characters, as `{:width}` writes a
/// string: padded on the right with spaces, never cut.
pub open spec fn pad_right(t: Seq<char>, width: nat) -> Seq<char> {
    if t.len() >= width {
        t
    } else {
        t + repeat_char(' ', (width - t.len()) as nat)
    }
}

/// `t` right-aligned in a field of `width` characters, padded on the left
/// with `fill`, as `{:>width}` (or `{:0width}` for numbers) writes it.
pub open spec fn pad_left(t: Seq<char>, width: nat, fill: char) -> Seq<char> {
    if t.len() >= width {
        t
    } else {
        repeat_char(fill, (width - t.len()) as nat) + t
    }
}

/// Appends `count` copies of the one-character string `c` to `s`.
pub fn push_repeat(s: &mut String, c: &str, count: usize)
    requires
        c@.len() == 1,
    ensures
        final(s)@ == old(s)@ + repeat_char(c@[0], count as nat),
{
    let ghost start = s@;
    let mut i: usize = 0;
    while i < count
        invariant
            i <= count,
            c@.len() == 1,
            s@ == start + repeat_char(c@[0], i as nat),
        decreases count - i,
    {
        s.append(c);
        i = i + 1;
        assert(s@ =~= start + repeat_char(c@[0], i as nat));
    }
}

/// The characters of `s`, in order.
pub fn chars_of(s: &str) -> (r: Vec<char>)
    ensures
        r@ == s@,
{
    let n = s.unicode_len();
    let mut r: Vec<char> = Vec::new();
    let mut i: usize = 0;
    while i < n
        invariant
            i <= n,
            n == s@.len(),
            r@ == s@.subrange(0, i as int),
        decreases n - i,
    {
        r.push(s.get_char(i));
        i = i + 1;
        assert(r@ =~= s@.subrange(0, i as int));
    }
    assert(r@ =~= s@);
    r
}

/// Appends `t` left-aligned in a field of `width` characters.
pub fn push_padded_right(s: &mut String, t: &str, width: usize)
    ensures
        final(s)@ == old(s)@ + pad_right(t@, width as nat),
{
    let n = t.unicode_len();
    s.append(t);
    if n < width {
        proof { reveal_strlit(" "); }
        push_repeat(s, " ", width - n);
    }
    assert(final(s)@ =~= old(s)@ + pad_right(t@, width as nat));
}

/// Appends `t` right-aligned in a field of `width` characters, padded with
/// the one-character string `fill`.
pub fn push_padded_left(s: &mut String, t: &str, width: usize, fill: &str)
    requires
        fill@.len() == 1,
    ensures
        final(s)@ == old(s)@ + pad_left(t@, width as nat, fill@[0]),
{
    let n = t.unicode_len();
    if n < width {
        push_repeat(s, fill, width - n);
    }
    s.append(t);
    assert(final(s)@ =~= old(s)@ + pad_left(t@, width as nat, fill@[0]));
}

/// The hexadecimal rendering of `n` as a new string.
pub fn hex_string(n: u64) -> (r: String)
    ensures
        r@ == hex_seq(n as nat),
{
    let mut r = String::new();
    push_hex(&mut r, n);
    assert(r@ =~= hex_seq(n as nat));
    r
}

/// The decimal rendering of `n` as a new string.
pub fn dec_string(n: u64) -> (r: String)
    ensures
        r@ == dec_seq(n as nat),
{
    let mut r = String::new();
    push_dec(&mut r, n);
    assert(r@ =~= dec_seq(n as nat));
    r
}

/// `"0x"` followed by the hexadecimal rendering of `n`, as `0x{:x}` writes it.
pub open spec fn hex_prefixed(n: nat) -> Seq<char> {
    seq!['0', 'x'] + hex_seq(n)
}

/// Renders `n` as `0x{:x}` does.
pub fn hex_prefixed_string(n: u64) -> (r: String)
    ensures
        r@ == hex_prefixed(n as nat),
{
    proof { reveal_strlit("0x"); }
    let mut r = String::from_str("0x");
    push_hex(&mut r, n);
    assert(r@ =~= hex_prefixed(n as nat));
    r
}


/// A white-space character in Unicode's sense (`char::is_whitespace`).
pub open spec fn is_white_space(c: char) -> bool {
    let u = c as u32;
    (0x9 <= u <= 0xd) || u == 0x20 || u == 0x85 || u == 0xa0 || u == 0x1680 || (0x2000 <= u
        <= 0x200a) || u == 0x2028 || u == 0x2029 || u == 0x202f || u == 0x205f || u == 0x3000
}

/// `s` without its leading white space.
pub open spec fn trim_start_ws(s: Seq<char>) -> Seq<char>
    decreases s.len(),
{
    if s.len() > 0 && is_white_space(s[0]) {
        trim_start_ws(s.drop_first())
    } else {
        s
    }
}

/// `s` without its trailing white space.
pub open spec fn trim_end_ws(s: Seq<char>) -> Seq<char>
    decreases s.len(),
{
    if s.len() > 0 && is_white_space(s.last()) {
        trim_end_ws(s.drop_last())
    } else {
        s
    }
}

/// `s` without leading and trailing white space, as `str::trim` gives it.
pub open spec fn trim_ws(s: Seq<char>) -> Seq<char> {
    trim_end_ws(trim_start_ws(s))
}

fn white_space(c: char) -> (r: bool)
    ensures
        r == is_white_space(c),
{
    let u = c as u32;
    (0x9 <= u && u <= 0xd) || u == 0x20 || u == 0x85 || u == 0xa0 || u == 0x1680 || (0x2000 <= u
        && u <= 0x200a) || u == 0x2028 || u == 0x2029 || u == 0x202f || u == 0x205f || u == 0x3000
}

proof fn lemma_trim_start(s: Seq<char>, a: int)
    requires
        0 <= a <= s.len(),
        forall|k: int| 0 <= k < a ==> is_white_space(#[trigger] s[k]),
        a < s.len() ==> !is_white_space(s[a]),
    ensures
        trim_start_ws(s) == s.subrange(a, s.len() as int),
    decreases a,
{
    if a > 0 {
        assert forall|k: int| 0 <= k < a - 1 implies is_white_space(#[trigger] s.drop_first()[k]) by {
            assert(s.drop_first()[k] == s[k + 1]);
        }
        lemma_trim_start(s.drop_first(), a - 1);
        assert(s.drop_first().subrange(a - 1, s.len() - 1) =~= s.subrange(a, s.len() as int));
    } else {
        assert(s.subrange(0, s.len() as int) =~= s);
    }
}

proof fn lemma_trim_end(s: Seq<char>, b: int)
    requires
        0 <= b <= s.len(),
        forall|k: int| b <= k < s.len() ==> is_white_space(#[trigger] s[k]),
        b > 0 ==> !is_white_space(s[b - 1]),
    ensures
        trim_end_ws(s) == s.subrange(0, b),
    decreases s.len() - b,
{
    if b < s.len() {
        assert forall|k: int| b <= k < s.len() - 1 implies is_white_space(#[trigger] s.drop_last()[k]) by {
            assert(s.drop_last()[k] == s[k]);
        }
        lemma_trim_end(s.drop_last(), b);
        assert(s.drop_last().subrange(0, b) =~= s.subrange(0, b));
    } else {
        assert(s.subrange(0, b) =~= s);
    }
}

/// `s` without leading and trailing white space.
pub fn trim(s: &str) -> (r: String)
    ensures
        r@ == trim_ws(s@),
{
    let cs = chars_of(s);
    let n = cs.len();
    let mut a: usize = 0;
    while a < n && white_space(cs[a])
        invariant
            a <= n,
            n == cs@.len(),
            forall|k: int| 0 <= k < a ==> is_white_space(#[trigger] cs@[k]),
        decreases n - a,
    {
        a = a + 1;
    }
    let mut b: usize = n;
    while b > a && white_space(cs[b - 1])
        invariant
            a <= b <= n,
            n == cs@.len(),
            forall|k: int| b <= k < n ==> is_white_space(#[trigger] cs@[k]),
        decreases b - a,
    {
        b = b - 1;
    }
    proof {
        lemma_trim_start(s@, a as int);
        let t = s@.subrange(a as int, n as int);
        assert forall|k: int| b - a <= k < t.len() implies is_white_space(#[trigger] t[k]) by {
            assert(t[k] == cs@[a + k]);
        }
        if b > a {
            assert(t[b - a - 1] == cs@[b - 1]);
        }
        lemma_trim_end(t, b - a);
        assert(t.subrange(0, b - a) =~= s@.subrange(a as int, b as int));
    }
    String::from_str(s.substring_char(a, b))
}


/// `t` occurs in `s` as a run of consecutive characters.
pub open spec fn has_substring(s: Seq<char>, t: Seq<char>) -> bool {
    exists|i: int| 0 <= i <= s.len() - t.len() && #[trigger] s.subrange(i, i + t.len()) == t
}

/// Whether `t` occurs in `cs` starting at position `i`.
fn occurs_at(cs: &Vec<char>, ts: &Vec<char>, i: usize) -> (r: bool)
    requires
        i + ts@.len() <= cs@.len(),
    ensures
        r == (cs@.subrange(i as int, i + ts@.len()) == ts@),
{
    let _n = cs.len();
    let mut k: usize = 0;
    while k < ts.len()
        invariant
            i + ts@.len() <= cs@.len(),
            cs@.len() <= usize::MAX,
            k <= ts@.len(),
            forall|q: int| 0 <= q < k ==> cs@[i + q] == ts@[q],
        decreases ts@.len() - k,
    {
        if cs[i + k] != ts[k] {
            assert(cs@.subrange(i as int, i + ts@.len())[k as int] != ts@[k as int]);
            return false;
        }
        k = k + 1;
    }
    assert(cs@.subrange(i as int, i + ts@.len()) =~= ts@);
    true
}

/// Whether `t` occurs in the characters `cs`.
pub fn chars_contain(cs: &Vec<char>, ts: &Vec<char>) -> (r: bool)
    ensures
        r == has_substring(cs@, ts@),
{
    if ts.len() > cs.len() {
        return false;
    }
    let last = cs.len() - ts.len();
    let mut i: usize = 0;
    loop
        invariant
            last == cs@.len() - ts@.len(),
            ts@.len() <= cs@.len(),
            i <= last,
            forall|q: int| 0 <= q < i ==> #[trigger] cs@.subrange(q, q + ts@.len()) != ts@,
        decreases last - i,
    {
        if occurs_at(cs, ts, i) {
            return true;
        }
        if i == last {
            return false;
        }
        i = i + 1;
    }
}

/// Whether `t` occurs in `s`, as `str::contains` with a string pattern.
pub fn str_contains(s: &str, t: &str) -> (r: bool)
    ensures
        r == has_substring(s@, t@),
{
    chars_contain(&chars_of(s), &chars_of(t))
}

/// Whether the character `c` occurs in `s`, as `str::contains` with a
/// character pattern.
pub fn str_contains_char(s: &str, c: char) -> (r: bool)
    ensures
        r == s@.contains(c),
{
    let cs = chars_of(s);
    let mut i: usize = 0;
    while i < cs.len()
        invariant
            cs@ == s@,
            i <= cs@.len(),
            forall|q: int| 0 <= q < i ==> cs@[q] != c,
        decreases cs@.len() - i,
    {
        if cs[i] == c {
            assert(s@[i as int] == c);
            return true;
        }
        i = i + 1;
    }
    false
}


/// Appends `n` in hexadecimal, zero-padded to `width` digits, as `{:0width$x}`
/// writes it.
pub fn push_hex_padded(s: &mut String, n: u64, width: usize)
    ensures
        final(s)@ == old(s)@ + pad_left(hex_seq(n as nat), width as nat, '0'),
{
    proof {
        reveal_strlit("0");
    }
    let t = hex_string(n);
    push_padded_left(s, t.as_str(), width, "0");
}

/// Appends `n` in decimal, right-aligned in `width` characters, as `{:width$}`
/// writes a number.
pub fn push_dec_padded(s: &mut String, n: u64, width: usize)
    ensures
        final(s)@ == old(s)@ + pad_left(dec_seq(n as nat), width as nat, ' '),
{
    proof {
        reveal_strlit(" ");
    }
    let t = dec_string(n);
    push_padded_left(s, t.as_str(), width, " ");
}

/// The first `max` characters of `t` (all of it when shorter), as `{:.max$}`
/// writes a string.
pub open spec fn truncated(t: Seq<char>, max: nat) -> Seq<char> {
    if t.len() <= max {
        t
    } else {
        t.subrange(0, max as int)
    }
}

/// Appends the first `max` characters of `t`.
pub fn push_truncated(s: &mut String, t: &str, max: usize)
    ensures
        final(s)@ == old(s)@ + truncated(t@, max as nat),
{
    let n = t.unicode_len();
    if n <= max {
        s.append(t);
    } else {
        s.append(t.substring_char(0, max));
    }
}

/// The lowercase form of a string as `str::to_lowercase` gives it, by
/// Unicode's lowercase mapping.
pub uninterp spec fn lowercase(s: Seq<char>) -> Seq<char>;

/// An ASCII character in lowercase: `A`..`Z` become `a`..`z`, others stay.
pub open spec fn ascii_lower(c: char) -> char {
    if 'A' <= c <= 'Z' {
        ((c as u32) + 32) as char
    } else {
        c
    }
}

/// Calls `str::to_lowercase`. Claimed: the result is `lowercase(s)`, a
/// function of the characters of `s` alone (std's documentation defines it
/// by Unicode's lowercase mapping); and, for ASCII text, that mapping takes
/// each character to its ASCII lowercase form, one for one (the Unicode
/// lowercase of an ASCII character is ASCII, and only `A`..`Z` change).
#[verifier::external_body]
pub(crate) fn to_lower(s: &str) -> (r: String)
    ensures
        r@ == lowercase(s@),
        vstd::utf8::is_ascii_chars(s@) ==> r@.len() == s@.len() && forall|i: int|
            0 <= i < s@.len() ==> #[trigger] r@[i] == ascii_lower(s@[i]),
{
    s.to_lowercase()
}

/// Calls `String::push`, which appends one character.
#[verifier::external_body]
pub(crate) fn push_char(s: &mut String, c: char)
    ensures
        final(s)@ == old(s)@.push(c),
{
    s.push(c)
}

/// Calls `String::pop`, which removes the last character, if there is one,
/// and returns it.
#[verifier::external_body]
pub(crate) fn pop_char(s: &mut String) -> (r: Option<char>)
    ensures
        old(s)@.len() == 0 ==> r is None && final(s)@ == old(s)@,
        old(s)@.len() > 0 ==> r == Some(old(s)@.last()) && final(s)@ == old(s)@.drop_last(),
{
    s.pop()
}

} // verus!
