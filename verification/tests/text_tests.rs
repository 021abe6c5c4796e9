use lewrep::text::{
    find_chars, first_line_of, list_contains, parse_usize, push_decimal,
    push_json_escaped, trim_class, trim_end_class, trim_start_class, CharClass,
};

fn chars_of(s: &str) -> Vec<char> {
    s.chars().collect()
}

#[test]
fn decimal_rendering() {
    for (n, s) in [(0u64, "0"), (7, "7"), (10, "10"), (1234, "1234"), (u64::MAX, "18446744073709551615")] {
        let mut out = String::from("#");
        push_decimal(&mut out, n);
        assert_eq!(out, format!("#{}", s));
    }
}

#[test]
fn parse_usize_accepts_digits() {
    assert_eq!(parse_usize("0"), Some(0));
    assert_eq!(parse_usize("42"), Some(42));
    assert_eq!(parse_usize("+42"), Some(42));
    assert_eq!(parse_usize("007"), Some(7));
    assert_eq!(parse_usize("18446744073709551615"), Some(usize::MAX));
}

#[test]
fn parse_usize_rejects_other_text() {
    assert_eq!(parse_usize(""), None);
    assert_eq!(parse_usize("+"), None);
    assert_eq!(parse_usize("-1"), None);
    assert_eq!(parse_usize("4 2"), None);
    assert_eq!(parse_usize("x"), None);
    assert_eq!(parse_usize("18446744073709551616"), None);
    assert_eq!(parse_usize("99999999999999999999999"), None);
}

#[test]
fn parse_usize_agrees_with_std() {
    for s in ["", "0", "12", "+3", "-3", "++1", "1a", " 1", "123456789012345678901"] {
        assert_eq!(parse_usize(s), s.parse::<usize>().ok(), "input {:?}", s);
    }
}

#[test]
fn decimal_reads_back() {
    for n in [0u64, 9, 10, 65535, 123456789] {
        let mut s = String::new();
        push_decimal(&mut s, n);
        assert_eq!(parse_usize(&s), Some(n as usize));
    }
}

#[test]
fn find_counts_characters() {
    let hay = chars_of("añb needle");
    assert_eq!(find_chars(&hay, &chars_of("needle")), Some(4));
    assert_eq!(find_chars(&hay, &chars_of("")), Some(0));
    assert_eq!(find_chars(&hay, &chars_of("absent")), None);
    assert_eq!(find_chars(&chars_of("ab"), &chars_of("abc")), None);
    assert_eq!(find_chars(&chars_of("aab"), &chars_of("ab")), Some(1));
}

#[test]
fn trimming_classes() {
    assert_eq!(trim_class(&chars_of("  x y \n"), CharClass::Whitespace), "x y");
    assert_eq!(trim_start_class(&chars_of("..rs."), CharClass::Dot), "rs.");
    assert_eq!(trim_end_class(&chars_of("line\r\n\n"), CharClass::LineEnd), "line");
}

#[test]
fn first_line_as_lines_gives_it() {
    assert_eq!(first_line_of(&chars_of("abc\r\ndef")), "abc");
    assert_eq!(first_line_of(&chars_of("abc\ndef")), "abc");
    assert_eq!(first_line_of(&chars_of("abc\r")), "abc\r");
    assert_eq!(first_line_of(&chars_of("")), "");
    assert_eq!(first_line_of(&chars_of("\n")), "");
    for s in ["abc\r\ndef", "abc\r", "", "x\ny", "\r\n"] {
        assert_eq!(first_line_of(&chars_of(s)), s.lines().next().unwrap_or(""));
    }
}

#[test]
fn json_escaping() {
    let mut out = String::new();
    push_json_escaped(&mut out, r#"a"b\c"#);
    assert_eq!(out, r#"a\"b\\c"#);
    let mut out = String::new();
    push_json_escaped(&mut out, "a\tb\r\n\u{1}\u{1b}[0m\u{7f}é");
    assert_eq!(out, "a\\tb\\r\\n\\u0001\\u001b[0m\u{7f}é");
}

#[test]
fn unicode_classes_in_trimming() {
    assert_eq!(trim_class(&chars_of("\u{a0}\tx y\u{2003}"), CharClass::Whitespace), "x y");
    assert_eq!(trim_class(&chars_of("\u{3000}é\u{85}"), CharClass::Whitespace), "é");
}

#[test]
fn list_lookup() {
    let list = vec!["x".to_string(), "rs".to_string()];
    assert!(list_contains(&list, "rs"));
    assert!(!list_contains(&list, "c"));
    assert!(!list_contains(&list, "RS"));
    assert!(!list_contains(&Vec::new(), ""));
}

#[test]
fn whitespace_class_agrees_with_std() {
    for n in 0u32..0x11000 {
        if let Some(c) = char::from_u32(n) {
            let trimmed = trim_class(&vec![c], CharClass::Whitespace);
            assert_eq!(trimmed.is_empty(), c.is_whitespace(), "U+{:04X}", n);
        }
    }
}
