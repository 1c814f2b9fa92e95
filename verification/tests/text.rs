use mcp_client::text::{
    decimal_text, is_white_space, lower_chars, same_text, signed_decimal_text, trim,
    truncate_for_error, upper_chars,
};

#[test]
fn short_text_is_quoted_whole() {
    assert_eq!(truncate_for_error(""), "");
    assert_eq!(truncate_for_error("internal error"), "internal error");
    let limit = "\u{e9}".repeat(300);
    assert_eq!(truncate_for_error(&limit), limit);
}

#[test]
fn long_text_is_cut_after_three_hundred_characters() {
    let long = "\u{e9}".repeat(301);
    let shown = truncate_for_error(&long);
    assert_eq!(shown, format!("{}\u{2026}", "\u{e9}".repeat(300)));
    assert_eq!(truncate_for_error(&shown), shown);
    assert_eq!(truncate_for_error(&"x".repeat(5000)).chars().count(), 301);
}

#[test]
fn white_space_is_that_of_unicode() {
    for code in 0..0x110000u32 {
        if let Some(c) = char::from_u32(code) {
            assert_eq!(is_white_space(c), c.is_whitespace(), "{code:x}");
        }
    }
}

#[test]
fn trimming_removes_white_space_at_both_ends() {
    assert_eq!(trim(" \t\u{a0}http://h/ x\u{3000}\n"), "http://h/ x");
    assert_eq!(trim("  "), "");
    assert_eq!(trim(""), "");
    assert_eq!(trim("a"), "a");
}

#[test]
fn numbers_are_written_in_decimal() {
    for n in [0u64, 7, 10, 19, 100, 101, 12345678901234567890, u64::MAX] {
        assert_eq!(decimal_text(n), n.to_string());
    }
    for n in [0i64, -1, 5, -32601, i64::MAX, i64::MIN] {
        assert_eq!(signed_decimal_text(n), n.to_string());
    }
}

#[test]
fn case_folding_leaves_other_characters_alone() {
    let text = "aZ[`{@ \u{e9}\u{130}";
    assert_eq!(
        upper_chars(text).into_iter().collect::<String>(),
        text.to_ascii_uppercase()
    );
    assert_eq!(
        lower_chars(text).into_iter().collect::<String>(),
        text.to_ascii_lowercase()
    );
}

#[test]
fn texts_are_compared_whole() {
    assert!(same_text("", ""));
    assert!(same_text("null", "null"));
    assert!(!same_text("null", "nul"));
    assert!(!same_text("nul", "null"));
    assert!(!same_text("null", "nulL"));
}
