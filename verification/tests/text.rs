use oxipipe::text::char_is_whitespace;
use oxipipe::text::strip_prefix;
use oxipipe::text::trim;

#[test]
fn strip_prefix_removes_a_leading_match() {
    assert_eq!(strip_prefix("@every 10s", "@every "), Some("10s"));
    assert_eq!(strip_prefix("@every ", "@every "), Some(""));
    assert_eq!(strip_prefix("abc", ""), Some("abc"));
}

#[test]
fn strip_prefix_refuses_other_text() {
    assert_eq!(strip_prefix("@every", "@every "), None);
    assert_eq!(strip_prefix(" @every 10s", "@every "), None);
    assert_eq!(strip_prefix("@Every 10s", "@every "), None);
    assert_eq!(strip_prefix("", "@every "), None);
}

#[test]
fn strip_prefix_counts_characters_not_bytes() {
    assert_eq!(strip_prefix("µs-eins", "µs"), Some("-eins"));
    assert_eq!(strip_prefix("日本語", "日本"), Some("語"));
}

#[test]
fn trim_agrees_with_std() {
    for text in [
        "",
        " ",
        "   ",
        "a",
        " a",
        "a ",
        "  0 * * * * *  ",
        "\t\n0 0 * * * *\r\n",
        "\u{00A0}x\u{3000}",
        "\u{2003}inner space kept\u{205F}",
        "no-space",
        "\u{200B}zero width is no white space\u{200B}",
    ] {
        assert_eq!(trim(text), text.trim());
    }
}

#[test]
fn whitespace_agrees_with_std() {
    for code in 0..0x3100u32 {
        if let Some(c) = char::from_u32(code) {
            assert_eq!(char_is_whitespace(c), c.is_whitespace());
        }
    }
    assert!(!char_is_whitespace('\u{FEFF}'));
    assert!(!char_is_whitespace('\u{10FFFF}'));
}
