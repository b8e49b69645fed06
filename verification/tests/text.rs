use flappy::text::{
    begins_with, chars_le, chars_of, count_of, find, has, has_word, is_word, matches_at, parse_u8,
    replace, replace_word, same_chars, slice_of, split_rows, str_le, string_of, strip_prefix,
    to_ascii_lower, to_ascii_upper, to_digit, to_lower, trim_chars, trim_end_matches,
    trim_start_matches, trim_start_word, char_is_whitespace, push_decimal,
};

fn cs(s: &str) -> Vec<char> {
    s.chars().collect()
}

#[test]
fn strings_and_characters_convert_both_ways() {
    assert_eq!(chars_of("a\u{2588}b"), vec!['a', '\u{2588}', 'b']);
    assert_eq!(string_of(&vec!['a', '\u{2588}', 'b']), "a\u{2588}b");
    assert_eq!(string_of(&chars_of("")), "");
    assert_eq!(slice_of(&cs("abcdef"), 2, 4), cs("cd"));
    assert_eq!(slice_of(&cs("abcdef"), 6, 6), cs(""));
    assert!(same_chars(&cs("abc"), &cs("abc")));
    assert!(!same_chars(&cs("abc"), &cs("abd")));
    assert!(!same_chars(&cs("abc"), &cs("ab")));
    assert!(is_word(&cs("esc"), "esc"));
    assert!(!is_word(&cs("esc"), "es"));
}

#[test]
fn case_changes_touch_ascii_letters_only() {
    assert_eq!(to_ascii_upper('a'), 'A');
    assert_eq!(to_ascii_upper('z'), 'Z');
    assert_eq!(to_ascii_upper('A'), 'A');
    assert_eq!(to_ascii_upper('1'), '1');
    assert_eq!(to_ascii_upper('\u{e9}'), '\u{e9}');
    assert_eq!(to_ascii_lower('Q'), 'q');
    assert_eq!(to_ascii_lower('q'), 'q');
    assert_eq!(to_ascii_lower('['), '[');
    assert_eq!(to_ascii_lower('@'), '@');
    assert_eq!(to_lower(&cs("CTRL-\u{c9}a")), cs("ctrl-\u{c9}a"));
}

#[test]
fn white_space_is_what_unicode_says() {
    for c in [' ', '\t', '\n', '\u{b}', '\u{c}', '\r', '\u{85}', '\u{a0}', '\u{1680}', '\u{2000}', '\u{200a}', '\u{2028}', '\u{2029}', '\u{202f}', '\u{205f}', '\u{3000}'] {
        assert!(char_is_whitespace(c));
        assert!(c.is_whitespace());
    }
    for c in ['a', '\u{8}', '\u{e}', '\u{200b}', '\u{1f}', '\u{2588}', '0'] {
        assert!(!char_is_whitespace(c));
        assert!(!c.is_whitespace());
    }
    for u in 0..0x3100u32 {
        if let Some(c) = char::from_u32(u) {
            assert_eq!(char_is_whitespace(c), c.is_whitespace());
        }
    }
    assert_eq!(trim_chars(&cs(" \t a b \u{3000}\n")), cs("a b"));
    assert_eq!(trim_chars(&cs("   ")), cs(""));
    assert_eq!(trim_chars(&cs("")), cs(""));
    assert_eq!(trim_chars(&cs("ab")), cs("ab"));
}

#[test]
fn counting_and_searching_work_on_characters() {
    assert_eq!(count_of(&cs("<<a>>>"), '<'), 2);
    assert_eq!(count_of(&cs("<<a>>>"), '>'), 3);
    assert_eq!(count_of(&cs(""), '>'), 0);
    assert!(matches_at(&cs("abcabc"), &cs("bc"), 1));
    assert!(matches_at(&cs("abcabc"), &cs("bc"), 4));
    assert!(!matches_at(&cs("abcabc"), &cs("bc"), 5));
    assert!(!matches_at(&cs("abcabc"), &cs("bc"), 7));
    assert!(matches_at(&cs("abc"), &cs(""), 3));
    assert!(!matches_at(&cs("abc"), &cs(""), 4));
    assert_eq!(find(&cs("abcabc"), &cs("ca")), Some(2));
    assert_eq!(find(&cs("abcabc"), &cs("bc")), Some(1));
    assert_eq!(find(&cs("abcabc"), &cs("cb")), None);
    assert_eq!(find(&cs("abc"), &cs("")), Some(0));
    assert_eq!(find(&cs(""), &cs("")), Some(0));
    assert_eq!(find(&cs(""), &cs("a")), None);
    assert!(has(&cs("a><b"), &cs("><")));
    assert!(!has_word(&cs("a<>b"), "><"));
    assert!(begins_with(&cs("ctrl-a"), "ctrl-"));
    assert!(!begins_with(&cs("xctrl-a"), "ctrl-"));
}

#[test]
fn trimming_takes_all_copies() {
    assert_eq!(trim_start_matches(&cs("<<<a<"), '<'), cs("a<"));
    assert_eq!(trim_start_matches(&cs("<<<"), '<'), cs(""));
    assert_eq!(trim_end_matches(&cs(">a>>"), '>'), cs(">a"));
    assert_eq!(trim_end_matches(&cs(">>"), '>'), cs(""));
    assert_eq!(strip_prefix(&cs("<<a"), '<'), cs("<a"));
    assert_eq!(strip_prefix(&cs("a"), '<'), cs("a"));
    assert_eq!(strip_prefix(&cs(""), '<'), cs(""));
    assert_eq!(trim_start_word(&cs("colorcolor12"), "color"), cs("12"));
    assert_eq!(trim_start_word(&cs("xcolor12"), "color"), cs("xcolor12"));
    assert_eq!(trim_start_word(&cs("color"), "color"), cs(""));
    assert_eq!(trim_start_word(&cs("abc"), ""), cs("abc"));
}

#[test]
fn replacing_goes_on_behind_each_occurrence() {
    assert_eq!(replace_word(&cs("grey greygrey"), "grey", "gray"), cs("gray graygray"));
    assert_eq!(replace_word(&cs("aaa"), "aa", "b"), cs("ba"));
    assert_eq!(replace_word(&cs("aaaa"), "aa", "a"), cs("aa"));
    assert_eq!(replace_word(&cs("abc"), "", "x"), cs("abc"));
    assert_eq!(replace_word(&cs("on on "), "on ", ""), cs(""));
    assert_eq!(replace_word(&cs("abc"), "abcd", "x"), cs("abc"));
    assert_eq!(replace_word(&cs(""), "a", "x"), cs(""));
    assert_eq!(replace(&cs("xyz"), &cs("z"), &cs("zz")), cs("xyzz"));
    for (text, from, to) in [("banana", "an", "AN"), ("aXbXc", "X", ""), ("foo", "o", "oo"), ("abab", "ab", "ba")] {
        assert_eq!(string_of(&replace_word(&cs(text), from, to)), text.replace(from, to));
    }
}

#[test]
fn numbers_below_256_are_read() {
    for text in ["0", "7", "007", "255", "256", "+5", "+", "", "-1", "1a", " 1", "99999999999999999999", "+255", "++1"] {
        assert_eq!(parse_u8(&cs(text)), text.parse::<u8>().ok(), "{:?}", text);
    }
    assert_eq!(to_digit('7'), Some(7));
    assert_eq!(to_digit('0'), Some(0));
    assert_eq!(to_digit('a'), None);
    assert_eq!(to_digit('\u{663}'), None);
    for n in [0u8, 9, 10, 99, 100, 101, 255] {
        let mut s = "x".to_string();
        push_decimal(&mut s, n);
        assert_eq!(s, format!("x{}", n));
    }
}

#[test]
fn texts_are_ordered_as_in_a_dictionary() {
    let words = ["", "a", "ab", "b", "B", "\u{e9}", "abc", "Enter", "ctrl-c", "q"];
    for a in words {
        for b in words {
            assert_eq!(str_le(a, b), a <= b, "{:?} {:?}", a, b);
            assert_eq!(chars_le(&cs(a), &cs(b)), a <= b);
        }
    }
}

#[test]
fn rows_are_the_lines_that_are_not_empty() {
    for text in ["", "\n", "a", "a\n", "\na\n\nb", "a\r\nb\r\n", "a\rb", "\r\n\r\n", "a\r", "\r", "x\n\ry\n"] {
        let expected: Vec<String> = text.lines().filter(|l| !l.is_empty()).map(|l| l.to_string()).collect();
        assert_eq!(split_rows(text), expected, "{:?}", text);
    }
}
