use library_bot::text::{
    decimal_text, ends_with, last_index_of, parse_i64, parse_u16, parse_u64, parse_usize,
    same_text, starts_with, strip_prefix, trim, trim_end_matching,
};

#[test]
fn trim_matches_std_trim() {
    for s in ["  hello  ", "\t\n x y \r\n", "", "   ", "\u{3000}كتاب\u{a0}", "a", "\u{2028}b\u{85}"] {
        assert_eq!(trim(s), s.trim());
    }
}

#[test]
fn prefix_and_suffix_checks() {
    assert!(starts_with("open_folder:x", "open_folder:"));
    assert!(!starts_with("open", "open_folder:"));
    assert!(ends_with("book.PDF.pdf", ".pdf"));
    assert!(!ends_with("pdf", ".pdf"));
    assert_eq!(strip_prefix("page:a:2", "page:"), Some("a:2"));
    assert_eq!(strip_prefix("pag", "page:"), None);
    assert!(same_text("webhook", "webhook"));
    assert!(!same_text("webhook ", "webhook"));
}

#[test]
fn last_index_counts_characters() {
    assert_eq!(last_index_of("a:b:c", ':'), Some(3));
    assert_eq!(last_index_of("مجلد:2", ':'), Some(4));
    assert_eq!(last_index_of("abc", ':'), None);
    assert_eq!(trim_end_matching("https://x.com///", '/'), "https://x.com");
}

#[test]
fn integer_parsing_matches_std() {
    for s in ["8080", "+80", "-1", "", "+", "65535", "65536", "00012", " 1", "1a"] {
        assert_eq!(parse_u16(s), s.parse::<u16>().ok(), "u16 {:?}", s);
    }
    for s in ["-9223372036854775808", "9223372036854775807", "9223372036854775808", "-0", "-", "+5", "-100123"] {
        assert_eq!(parse_i64(s), s.parse::<i64>().ok(), "i64 {:?}", s);
    }
    for s in ["18446744073709551615", "18446744073709551616", "50", "-50"] {
        assert_eq!(parse_u64(s), s.parse::<u64>().ok(), "u64 {:?}", s);
        assert_eq!(parse_usize(s), s.parse::<usize>().ok(), "usize {:?}", s);
    }
}

#[test]
fn decimal_matches_display() {
    for n in [0u64, 7, 10, 99, 100, 12345, u64::MAX] {
        assert_eq!(decimal_text(n), n.to_string());
    }
}

#[test]
fn decimal_round_trip() {
    for n in [0usize, 1, 9, 10, 4096, usize::MAX] {
        assert_eq!(parse_usize(&decimal_text(n as u64)), Some(n));
    }
}
