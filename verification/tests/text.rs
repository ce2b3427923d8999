use elf_insight::text::{
    dec_string, hex_prefixed_string, hex_string, push_dec_padded, push_hex_padded, push_padded_left,
    push_padded_right, push_truncated, str_contains, str_contains_char, trim,
};
use elf_insight::ui::search::{hexdump_hits, highlight_ranges, matching_texts, parse_hex};
use elf_insight::ui::strings::extract_strings;

#[test]
fn numbers_in_hex_and_decimal() {
    assert_eq!(hex_string(0), "0");
    assert_eq!(hex_string(0xdead_beef), "deadbeef");
    assert_eq!(hex_string(u64::MAX), "ffffffffffffffff");
    assert_eq!(dec_string(0), "0");
    assert_eq!(dec_string(1234567890), "1234567890");
    assert_eq!(hex_prefixed_string(255), "0xff");
}

#[test]
fn padded_fields() {
    let mut s = String::new();
    push_hex_padded(&mut s, 0x1a, 8);
    assert_eq!(s, "0000001a");
    let mut s = String::new();
    push_hex_padded(&mut s, 0x123456789, 4);
    assert_eq!(s, "123456789");
    let mut s = String::new();
    push_dec_padded(&mut s, 7, 2);
    assert_eq!(s, " 7");
    let mut s = String::from("x");
    push_padded_right(&mut s, "ab", 4);
    assert_eq!(s, "xab  ");
    let mut s = String::new();
    push_padded_left(&mut s, "ab", 4, "*");
    assert_eq!(s, "**ab");
    let mut s = String::new();
    push_truncated(&mut s, "abcdef", 3);
    assert_eq!(s, "abc");
    let mut s = String::new();
    push_truncated(&mut s, "ab", 3);
    assert_eq!(s, "ab");
}

#[test]
fn trimming_and_containment() {
    assert_eq!(trim("  push \t"), "push");
    assert_eq!(trim("   "), "");
    assert!(str_contains("hello world", "lo w"));
    assert!(!str_contains("hello", "world"));
    assert!(str_contains("abc", ""));
    assert!(str_contains_char("AX", 'X'));
    assert!(!str_contains_char("WA", 'X'));
}

#[test]
fn hexadecimal_parsing_follows_from_str_radix() {
    for s in ["1f", "+ff", "", "+", "g1", "FFFFFFFFFFFFFFFF", "10000000000000000", "0", "-1", "1_0"] {
        assert_eq!(parse_hex(s), u64::from_str_radix(s, 16).ok(), "{}", s);
    }
    assert_eq!(parse_hex("1f"), Some(31));
    assert_eq!(parse_hex("ffffffffffffffff"), Some(u64::MAX));
    assert_eq!(parse_hex("10000000000000000"), None);
}

#[test]
fn written_addresses_read_back() {
    for v in [0u64, 9, 10, 0x401000, 0xffff_ffff_ffff_fffe, u64::MAX] {
        assert_eq!(parse_hex(&hex_string(v)), Some(v));
    }
}

#[test]
fn highlight_ranges_mark_each_match() {
    assert_eq!(highlight_ranges("Hello World", "world"), vec![(0, 6, false), (6, 11, true)]);
    assert_eq!(
        highlight_ranges("abcabc", "B"),
        vec![(0, 1, false), (1, 2, true), (2, 4, false), (4, 5, true), (5, 6, false)]
    );
    assert_eq!(highlight_ranges("abc", ""), vec![(0, 3, false)]);
    assert_eq!(highlight_ranges("abc", "x"), vec![(0, 3, false)]);
    assert_eq!(highlight_ranges("aaa", "aa"), vec![(0, 2, true), (2, 3, false)]);
}

#[test]
fn strings_end_with_nul_and_need_one_character() {
    let found = extract_strings(b"hi\0x\0World\0tail");
    assert_eq!(found, vec![(0, "hi".to_string()), (3, "x".to_string()), (5, "World".to_string())]);
    assert_eq!(extract_strings(&[0x61, 0]), vec![(0, "a".to_string())]);
    assert!(extract_strings(b"\0\0").is_empty());
    let found = extract_strings(b"ab\x01cd\0 e\0");
    assert_eq!(found, vec![(3, "cd".to_string()), (6, " e".to_string())]);
    assert!(extract_strings(b"").is_empty());
}

#[test]
fn hexdump_hits_are_sorted_and_distinct() {
    let data = b"abcABCabc\0......abc";
    assert_eq!(hexdump_hits(data, "abc"), vec![0, 6, 16]);
    assert_eq!(hexdump_hits(data, "ABC"), vec![0, 3, 16]);
    assert_eq!(hexdump_hits(b"\x01\x02\x03", "\u{1}"), vec![0]);
    assert!(hexdump_hits(b"xyz", "q").is_empty());
}

#[test]
fn matching_texts_compare_in_lowercase() {
    let texts = vec!["Alpha".to_string(), "beta".to_string(), "ALPHABET".to_string()];
    assert_eq!(matching_texts(&texts, "alpha"), vec![0, 2]);
    assert_eq!(matching_texts(&texts, "gamma"), Vec::<usize>::new());
}
