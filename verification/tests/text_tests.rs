use script_parser::text::{eq_lowered, is_space, is_upper, num_to_string, str_eq, trim_str};

#[test]
fn numbers_format_in_decimal() {
    assert_eq!(num_to_string(0), "0");
    assert_eq!(num_to_string(7), "7");
    assert_eq!(num_to_string(10), "10");
    assert_eq!(num_to_string(907), "907");
    assert_eq!(num_to_string(120034), "120034");
}

#[test]
fn trimming_matches_std() {
    for s in ["", "   ", "a", "  a b  ", "\t x \r", "\u{a0}uni\u{3000}", "no-trim"] {
        assert_eq!(trim_str(s), s.trim());
    }
}

#[test]
fn string_equality_by_characters() {
    assert!(str_eq("abc", "abc"));
    assert!(!str_eq("abc", "abd"));
    assert!(!str_eq("abc", "ab"));
    assert!(str_eq("", ""));
}

#[test]
fn case_insensitive_section_match() {
    assert!(eq_lowered("Characters", "characters"));
    assert!(eq_lowered("SCRIPT", "script"));
    assert!(!eq_lowered("scripts", "script"));
    assert!(!eq_lowered("Notes", "script"));
}

#[test]
fn character_classes_match_std() {
    for c in [' ', '\t', '\n', '\r', 'a', 'Z', '\u{a0}', '\u{2028}', '#'] {
        assert_eq!(is_space(c), c.is_whitespace());
    }
    for c in ['A', 'Z', 'a', 'z', '0', '[', '\u{c4}'] {
        assert_eq!(is_upper(c), c.is_ascii_uppercase());
    }
}
