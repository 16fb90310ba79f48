use papra_vector_search::embeddings::canonical_embedding_input;
use papra_vector_search::text::{decimal_chars, parse_bool, parse_i64, parse_usize, signed_decimal_chars, trim_chars};

fn chars(s: &str) -> Vec<char> {
    s.chars().collect()
}

#[test]
fn integers_parse_like_std() {
    for s in ["0", "42", "+7", "-7", "007", "-9223372036854775808", "9223372036854775807", "9223372036854775808", "", "-", "+", "1_000", " 1", "1 ", "--1"] {
        assert_eq!(parse_i64(&chars(s)), s.parse::<i64>().ok(), "i64 {s:?}");
        assert_eq!(parse_usize(&chars(s)), s.parse::<usize>().ok(), "usize {s:?}");
    }
    for s in ["true", "false", "True", "", "1"] {
        assert_eq!(parse_bool(&chars(s)), s.parse::<bool>().ok(), "bool {s:?}");
    }
}

#[test]
fn decimal_text_matches_display() {
    for n in [0u64, 7, 10, 384, u64::MAX] {
        assert_eq!(decimal_chars(n).into_iter().collect::<String>(), n.to_string());
    }
    for n in [0i64, -1, 300, i64::MIN, i64::MAX] {
        assert_eq!(signed_decimal_chars(n).into_iter().collect::<String>(), n.to_string());
    }
}

#[test]
fn trimming_follows_unicode_white_space() {
    let s = "\u{3000}\u{a0}\t text \u{2029}\n";
    assert_eq!(trim_chars(&chars(s)).into_iter().collect::<String>(), s.trim());
    assert!(trim_chars(&chars(" \u{85} ")).is_empty());
}

#[test]
fn canonical_input_normalizes_line_endings_and_composition() {
    assert_eq!(canonical_embedding_input("A", "x\ry\r\n\r\nz"), "Title: A\n\nContent:\nx\ny\n\nz");
    assert_eq!(canonical_embedding_input("Cafe\u{301}", ""), "Title: Caf\u{e9}\n\nContent:\n");
}
