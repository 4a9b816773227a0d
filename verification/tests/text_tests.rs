use bookos_store::text::{
    after_prefix, blank, chars_of, contains, decimal_text, ends_with, first_char, parse_u64,
    piece_after, same_text, signed_text, split_lines, split_words, tail_after, trim,
    trim_char, trim_front, white,
};

#[test]
fn white_space_is_that_of_unicode() {
    for n in 0..0x11_0000u32 {
        if let Some(c) = char::from_u32(n) {
            assert_eq!(white(c), c.is_whitespace(), "{:x}", n);
        }
    }
}

#[test]
fn words_are_runs_between_white_space() {
    assert_eq!(split_words("  a\tbc \u{3000}d\n"), vec!["a", "bc", "d"]);
    assert!(split_words(" \n").is_empty());
    assert!(split_words("").is_empty());
}

#[test]
fn words_agree_with_the_standard_library() {
    for s in ["", "x", " x", "x ", "a b", "a\u{85}b\u{2028}c", "ñ  ü\r\n", "\u{200b}x"] {
        let expected: Vec<String> = s.split_whitespace().map(String::from).collect();
        assert_eq!(split_words(s), expected);
    }
}

#[test]
fn trimming_takes_white_space_from_both_ends() {
    assert_eq!(trim(" \u{a0}x y \r\n"), "x y");
    assert_eq!(trim("   "), "");
    assert_eq!(trim_front("  x "), "x ");
    assert_eq!(trim_char("\"\"arch\"", '"'), "arch");
    assert_eq!(trim_char("a\"b", '"'), "a\"b");
    assert!(blank(" \t"));
    assert!(!blank(" x "));
}

#[test]
fn lines_end_at_line_feeds() {
    assert_eq!(split_lines("a\r\nb\n\nc\r"), vec!["a", "b", "", "c\r"]);
    assert_eq!(split_lines("a\n"), vec!["a"]);
    assert!(split_lines("").is_empty());
    for s in ["", "\n", "\r\n", "a", "a\n\n", "a\rb\r\nc", "\n\nx"] {
        let expected: Vec<String> = s.lines().map(String::from).collect();
        assert_eq!(split_lines(s), expected);
    }
}

#[test]
fn texts_are_searched_and_cut() {
    assert!(contains("BreezeDark", "Dark"));
    assert!(!contains("Breeze", "Dark"));
    assert!(contains("x", ""));
    assert!(ends_with("store.json", ".json"));
    assert!(!ends_with("json", ".json"));
    assert_eq!(after_prefix("ID=arch", "ID="), Some("arch".to_string()));
    assert_eq!(after_prefix("NAME=x", "ID="), None);
    assert_eq!(tail_after("owner/repo", '/'), "repo");
    assert_eq!(tail_after("repo", '/'), "repo");
    assert_eq!(tail_after("owner/", '/'), "");
    assert_eq!(piece_after("a--b--c", "--"), Some("b".to_string()));
    assert_eq!(piece_after("a--b", "--"), Some("b".to_string()));
    assert_eq!(piece_after("ab", "--"), None);
    assert_eq!(first_char("ñx"), Some('ñ'));
    assert_eq!(first_char(""), None);
    assert!(same_text("á", "á"));
    assert!(!same_text("á", "a"));
    assert_eq!(chars_of("aé"), vec!['a', 'é']);
}

#[test]
fn numbers_are_written_in_decimal() {
    assert_eq!(decimal_text(0), "0");
    assert_eq!(decimal_text(1090), "1090");
    assert_eq!(decimal_text(u64::MAX), u64::MAX.to_string());
    assert_eq!(signed_text(-15), "-15");
    assert_eq!(signed_text(i32::MIN), i32::MIN.to_string());
    assert_eq!(signed_text(127), "127");
}

#[test]
fn numbers_are_read_as_the_standard_library_does() {
    for s in [
        "", "+", "0", "+7", "007", "-1", "1a", " 1", "++1", "18446744073709551615",
        "18446744073709551616", "99999999999999999999999", "99999999999999999999999x",
    ] {
        assert_eq!(parse_u64(s), s.parse::<u64>().ok(), "{}", s);
    }
}
