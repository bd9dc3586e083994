use abbey::text::{
    chars_of, count_tokens, count_within, width_of, find_from, is_space_char, matches_at, push_decimal, push_two_digits,
    replace_all, string_of, trim_from,
};

fn chars(s: &str) -> Vec<char> {
    s.chars().collect()
}

#[test]
fn chars_and_strings_round_trip() {
    assert_eq!(chars_of("héllo"), vec!['h', 'é', 'l', 'l', 'o']);
    assert_eq!(string_of(&vec!['a', 'ß', 'c']), "aßc");
    assert_eq!(string_of(&chars_of("")), "");
}

#[test]
fn white_space_is_what_the_standard_library_calls_so() {
    let mut n: u32 = 0;
    while n <= 0x3100 {
        if let Some(c) = char::from_u32(n) {
            assert_eq!(is_space_char(c), c.is_whitespace(), "U+{:04X}", n);
        }
        n += 1;
    }
}

#[test]
fn tokens_are_runs_between_white_space() {
    assert_eq!(count_tokens(&chars("")), 0);
    assert_eq!(count_tokens(&chars("one")), 1);
    assert_eq!(count_tokens(&chars("  one   two\tthree\n")), 3);
    assert_eq!(count_tokens(&chars("a\u{00A0}b\u{3000}c")), 3);
}

#[test]
fn trimming_cuts_both_ends_only() {
    assert_eq!(trim_from(&chars("  a b  "), 0), chars("a b"));
    assert_eq!(trim_from(&chars("##  a b  "), 2), chars("a b"));
    assert_eq!(trim_from(&chars("   "), 0), chars(""));
    assert_eq!(trim_from(&chars("abc"), 3), chars(""));
}

#[test]
fn matching_and_finding() {
    let hay = chars("abcabc");
    assert!(matches_at(&hay, &chars("bc"), 1));
    assert!(!matches_at(&hay, &chars("bc"), 2));
    assert!(!matches_at(&hay, &chars("bc"), 5));
    assert!(!matches_at(&hay, &chars("bc"), 7));
    assert!(matches_at(&hay, &chars(""), 6));
    assert_eq!(find_from(&hay, &chars("bc"), 0), 1);
    assert_eq!(find_from(&hay, &chars("bc"), 2), 4);
    assert_eq!(find_from(&hay, &chars("bc"), 5), 6);
    assert_eq!(find_from(&hay, &chars("x"), 0), 6);
}

#[test]
fn replacing_goes_left_to_right_without_overlap() {
    assert_eq!(replace_all(&chars("aaa"), &chars("aa"), &chars("b")), chars("ba"));
    assert_eq!(replace_all(&chars("abcabc"), &chars("bc"), &chars("")), chars("aa"));
    assert_eq!(replace_all(&chars("abc"), &chars("x"), &chars("y")), chars("abc"));
    assert_eq!(replace_all(&chars("abc"), &chars(""), &chars("y")), chars("abc"));
    assert_eq!(replace_all(&chars("aXa"), &chars("X"), &chars("XX")), chars("aXXa"));
}

#[test]
fn numerals() {
    let mut s = String::new();
    push_decimal(&mut s, 0);
    s.push(' ');
    push_decimal(&mut s, 7);
    s.push(' ');
    push_decimal(&mut s, 1203);
    s.push(' ');
    push_decimal(&mut s, u64::MAX);
    assert_eq!(s, "0 7 1203 18446744073709551615");
    let mut t = String::new();
    push_two_digits(&mut t, 5);
    t.push(':');
    push_two_digits(&mut t, 0);
    t.push(':');
    push_two_digits(&mut t, 123);
    assert_eq!(t, "05:00:123");
}

#[test]
fn widths_are_those_of_utf8() {
    let mut n: u32 = 0;
    while n <= 0x10FFFF {
        if let Some(c) = char::from_u32(n) {
            assert_eq!(width_of(c), c.len_utf8(), "U+{:04X}", n);
        }
        n += if n < 0x3000 { 1 } else { 0x101 };
    }
    assert_eq!(width_of('\u{7F}'), 1);
    assert_eq!(width_of('\u{80}'), 2);
    assert_eq!(width_of('\u{7FF}'), 2);
    assert_eq!(width_of('\u{800}'), 3);
    assert_eq!(width_of('\u{FFFF}'), 3);
    assert_eq!(width_of('\u{10000}'), 4);
    assert_eq!(width_of('\u{10FFFF}'), 4);
}

#[test]
fn whole_characters_within_a_number_of_bytes() {
    let v = chars("aé日😀b");
    assert_eq!(count_within(&v, 0), (0, 0));
    assert_eq!(count_within(&v, 1), (1, 1));
    assert_eq!(count_within(&v, 2), (1, 1));
    assert_eq!(count_within(&v, 3), (2, 3));
    assert_eq!(count_within(&v, 5), (2, 3));
    assert_eq!(count_within(&v, 6), (3, 6));
    assert_eq!(count_within(&v, 9), (3, 6));
    assert_eq!(count_within(&v, 10), (4, 10));
    assert_eq!(count_within(&v, 11), (5, 11));
    assert_eq!(count_within(&v, usize::MAX), (5, 11));
    assert_eq!(count_within(&chars(""), 7), (0, 0));
}
