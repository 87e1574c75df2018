use jellyfin_tui::text::{
    decimal_text, join, parse_u32, signed_text, trim, two_digit_text, white_space,
};

#[test]
fn numbers_are_written_in_decimal() {
    for n in [0, 1, 9, 10, 11, 99, 100, 1234567890, u64::MAX] {
        assert_eq!(decimal_text(n), n.to_string());
    }
    for n in [0, 1, -1, 10, -10, i64::MAX, i64::MIN] {
        assert_eq!(signed_text(n), n.to_string());
    }
    assert_eq!(signed_text(i64::MIN), "-9223372036854775808");
    assert_eq!(two_digit_text(0), "00");
    assert_eq!(two_digit_text(7), "07");
    assert_eq!(two_digit_text(59), "59");
    assert_eq!(two_digit_text(123), "123");
}

#[test]
fn numerals_parse_as_in_the_standard_library() {
    for text in [
        "", "+", "-", "0", "+0", "-0", "00", "007", "+007", "42", "4294967295", "4294967296",
        "99999999999999999999", "0000000000000000000000001", "1_000", "1 ", " 1", "1a", "a",
        "++1", "+-1", "0x10", "\u{661}", "1\u{661}", "é",
    ] {
        assert_eq!(parse_u32(text), text.parse::<u32>().ok(), "{text:?}");
    }
    assert_eq!(parse_u32("+17"), Some(17));
    assert_eq!(parse_u32("4294967296"), None);
}

#[test]
fn parsing_reads_back_what_was_written() {
    for n in [0, 1, 9, 10, 536_870_912, u32::MAX] {
        assert_eq!(parse_u32(&decimal_text(n as u64)), Some(n));
    }
}

#[test]
fn whitespace_is_that_of_the_standard_library() {
    for c in '\0'..=char::MAX {
        assert_eq!(white_space(c), c.is_whitespace(), "{c:?}");
    }
}

#[test]
fn trimming_takes_whitespace_off_both_ends() {
    for text in [
        "", " ", "\n", "a", " a", "a ", "\t a b \r\n", "\u{3000}ü\u{a0}", "\u{200b}a\u{200b}",
        "  \u{85} ", "é è",
    ] {
        assert_eq!(trim(text), text.trim());
        assert_eq!(trim(trim(text)), trim(text));
    }
}

#[test]
fn joining_puts_the_separator_between() {
    let list = |items: &[&str]| items.iter().map(|item| item.to_string()).collect::<Vec<_>>();
    for items in [&[][..], &[""], &["a"], &["a", "b"], &["", ""], &["a", "", "ü", "d"]] {
        assert_eq!(join(&list(items), ", "), items.join(", "));
    }
}
