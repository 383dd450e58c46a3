use micro_sequentia::text::{
    char_is_whitespace, chars_of, find_char, parse_unsigned_chars, push_decimal, replace_chars, split_lines,
    split_tokens, string_from_chars, trim_range,
};

fn chars(s: &str) -> Vec<char> {
    s.chars().collect()
}

fn strings(v: Vec<Vec<char>>) -> Vec<String> {
    v.into_iter().map(|l| l.into_iter().collect()).collect()
}

#[test]
fn whitespace_is_unicode_white_space() {
    for c in [' ', '\t', '\n', '\r', '\u{0B}', '\u{0C}', '\u{85}', '\u{A0}', '\u{2003}', '\u{3000}'] {
        assert!(char_is_whitespace(c), "{c:?}");
        assert_eq!(char_is_whitespace(c), c.is_whitespace());
    }
    for c in ['a', '0', '_', '\u{200B}', ';'] {
        assert!(!char_is_whitespace(c));
        assert_eq!(char_is_whitespace(c), c.is_whitespace());
    }
}

#[test]
fn trimming_matches_str_trim() {
    for s in ["  mov R1, R2 \t", "", "   ", "x", "\u{A0}label\u{3000}"] {
        let cs = chars(s);
        let (a, b) = trim_range(&cs);
        let trimmed: String = cs[a..b].iter().collect();
        assert_eq!(trimmed, s.trim());
    }
}

#[test]
fn lines_match_str_lines() {
    for s in ["a\nb", "a\r\nb\r\n", "\n\n", "", "one", "x\ry", "last\r"] {
        let expected: Vec<String> = s.lines().map(|l| l.to_string()).collect();
        assert_eq!(strings(split_lines(&chars(s))), expected, "{s:?}");
    }
}

#[test]
fn replacement_matches_str_replace() {
    for (s, p, r) in [("PUSH PC\nPUSH PCPUSH PC", "PUSH PC", "PUSH_PC"), ("aaa", "aa", "b"), ("xyz", "q", "w"), ("", "a", "b")] {
        let out: String = replace_chars(&chars(s), &chars(p), &chars(r)).into_iter().collect();
        assert_eq!(out, s.replace(p, r));
    }
}

#[test]
fn tokens_split_on_spaces_and_commas() {
    assert_eq!(strings(split_tokens(&chars("mov  R1,,R2 ,"))), vec!["mov", "R1", "R2"]);
    assert_eq!(strings(split_tokens(&chars(" , "))), Vec::<String>::new());
    assert_eq!(strings(split_tokens(&chars("a\tb"))), vec!["a\tb"]);
}

#[test]
fn unsigned_numbers_parse_like_from_str_radix() {
    for s in ["0", "65535", "65536", "+12", "+", "", "-1", "1a", "007"] {
        assert_eq!(parse_unsigned_chars(&chars(s), 10, 0xFFFF), u16::from_str_radix(s, 10).ok().map(u64::from), "{s:?}");
    }
    for s in ["ff", "FF", "+dead", "fffffffffffffffff", "g"] {
        assert_eq!(parse_unsigned_chars(&chars(s), 16, u64::MAX), u64::from_str_radix(s, 16).ok(), "{s:?}");
    }
}

#[test]
fn decimal_rendering() {
    let mut s = String::from("n=");
    push_decimal(&mut s, 0);
    push_decimal(&mut s, 1234567890);
    assert_eq!(s, "n=01234567890");
    let mut m = String::new();
    push_decimal(&mut m, u64::MAX);
    assert_eq!(m, u64::MAX.to_string());
}

#[test]
fn character_conversions() {
    assert_eq!(chars_of("héllo"), chars("héllo"));
    assert_eq!(string_from_chars(&chars("héllo")), "héllo");
    assert_eq!(find_char(&chars("ab:cd:"), 0, ':'), 2);
    assert_eq!(find_char(&chars("ab:cd:"), 3, ':'), 5);
    assert_eq!(find_char(&chars("abcd"), 1, ':'), 4);
}
