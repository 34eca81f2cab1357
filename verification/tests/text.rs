use gemini_cli_rs::text::{decimal_string, is_whitespace, same_text, strip_prefix, trim};

#[test]
fn trim_matches_std() {
    for s in ["", "  ", " a ", "\u{3000}x\u{85}", "\t\n a b \r\n", "x", "\u{a0}\u{2028}y\u{202f}"] {
        assert_eq!(trim(s), s.trim());
    }
}

#[test]
fn whitespace_matches_std() {
    for c in ['\u{0}', ' ', '\t', '\u{b}', '\u{1c}', '\u{85}', '\u{a0}', '\u{180e}', '\u{200b}', '\u{3000}', 'a', '\u{feff}'] {
        assert_eq!(is_whitespace(c), c.is_whitespace(), "{:?}", c);
    }
}

#[test]
fn strip_prefix_matches_std() {
    for (s, p) in [("data: x", "data: "), ("data:x", "data: "), ("", ""), ("da", "data: "), ("日本語", "日")] {
        assert_eq!(strip_prefix(s, p), s.strip_prefix(p));
    }
}

#[test]
fn decimal_matches_to_string() {
    for n in [0u64, 7, 10, 429, 65535, u64::MAX] {
        assert_eq!(decimal_string(n), n.to_string());
    }
}

#[test]
fn same_text_compares_contents() {
    assert!(same_text("SAFETY", "SAFETY"));
    assert!(!same_text("SAFETY", "safety"));
}
