use fluxon_kv::text;

#[test]
fn numbers_are_written_in_decimal() {
    assert_eq!(text::u64_text(0), "0");
    assert_eq!(text::u64_text(u64::MAX), u64::MAX.to_string());
    let mut out = String::from("n=");
    text::append_i64(&mut out, i64::MIN);
    assert_eq!(out, format!("n={}", i64::MIN));
    assert_eq!(text::debug_option_i64(Some(-5)), "Some(-5)");
    assert_eq!(text::debug_pair_text((7, 3)), "(7, 3)");
}

#[test]
fn optional_strings_are_quoted_as_debug_output() {
    let name = "a\"b\\c\n\u{e9}".to_string();
    assert_eq!(
        text::debug_option_string(Some(&name)),
        format!("{:?}", Some(&name))
    );
    assert_eq!(text::debug_option_string(None), "None");
}

#[test]
fn numbers_are_read_as_the_standard_library_reads_them() {
    let inputs = [
        "", "0", "-0", "+0", "+", "-", "007", "65535", "65536", "-1", "+12", " 1", "1 ", "1_0",
        "9223372036854775807", "9223372036854775808", "-9223372036854775808",
        "-9223372036854775809", "99999999999999999999999", "\u{ff11}",
    ];
    for input in inputs {
        assert_eq!(text::parse_i64(input), input.parse::<i64>().ok(), "{:?}", input);
        assert_eq!(text::parse_u16(input), input.parse::<u16>().ok(), "{:?}", input);
    }
}

#[test]
fn space_is_trimmed_as_the_standard_library_trims_it() {
    let inputs = ["", " ", "a", " a b ", "\u{a0}x\u{3000}", "\n\tq\r\n", "\u{200b}"];
    for input in inputs {
        assert_eq!(text::trim(&text::chars_of(input)), input.trim(), "{:?}", input);
        assert_eq!(text::is_blank(input), input.trim().is_empty(), "{:?}", input);
    }
}

#[test]
fn texts_are_compared_and_split() {
    assert!(text::same_text("abc", "abc"));
    assert!(!text::same_text("abc", "abd"));
    assert!(text::starts_with("\u{e9}tat", "\u{e9}t"));
    assert!(!text::starts_with("ab", "abc"));
    let words = ["", "a", "ab", "b", "\u{e9}", "z"];
    for a in words {
        for b in words {
            assert_eq!(text::comes_before(a, b), a < b);
        }
    }
    let parts: Vec<String> = text::split_chars(&text::chars_of("a,,b,"), ',')
        .iter()
        .map(text::text_of)
        .collect();
    assert_eq!(parts, vec!["a", "", "b", ""]);
    assert_eq!(text::first_chars("h\u{e9}llo", 2), "h\u{e9}");
    assert!(text::is_empty(""));
    assert!(!text::is_empty(" "));
}

#[test]
fn white_space_is_what_unicode_says() {
    for c in '\u{0}'..=char::MAX {
        assert_eq!(text::is_blank(&c.to_string()), c.is_whitespace(), "{:?}", c);
    }
}
