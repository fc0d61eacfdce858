use hap::text::{parse_u64, same_text, split_text};

#[test]
fn split_separates_at_every_separator() {
    assert_eq!(split_text("1.10,1.11", ','), vec!["1.10".to_string(), "1.11".to_string()]);
    assert_eq!(split_text("1.10", '.'), vec!["1".to_string(), "10".to_string()]);
}

#[test]
fn split_keeps_empty_pieces() {
    assert_eq!(split_text("", ','), vec![String::new()]);
    assert_eq!(split_text("a,", ','), vec!["a".to_string(), String::new()]);
    assert_eq!(split_text(",a", ','), vec![String::new(), "a".to_string()]);
    assert_eq!(split_text("a,,b", ','), vec!["a".to_string(), String::new(), "b".to_string()]);
}

#[test]
fn split_agrees_with_std() {
    for text in ["", ".", "1.2", "1.2.3", "..", "abc", "a.b.", "ä.ö"] {
        let expected: Vec<String> = text.split('.').map(|p| p.to_string()).collect();
        assert_eq!(split_text(text, '.'), expected);
    }
}

#[test]
fn parse_u64_reads_decimal_numbers() {
    assert_eq!(parse_u64("0"), Some(0));
    assert_eq!(parse_u64("10"), Some(10));
    assert_eq!(parse_u64("007"), Some(7));
    assert_eq!(parse_u64("+5"), Some(5));
    assert_eq!(parse_u64("18446744073709551615"), Some(u64::MAX));
}

#[test]
fn parse_u64_refuses_what_is_no_number() {
    assert_eq!(parse_u64(""), None);
    assert_eq!(parse_u64("+"), None);
    assert_eq!(parse_u64("-1"), None);
    assert_eq!(parse_u64("1a"), None);
    assert_eq!(parse_u64(" 1"), None);
    assert_eq!(parse_u64("1.5"), None);
    assert_eq!(parse_u64("18446744073709551616"), None);
    assert_eq!(parse_u64("99999999999999999999999"), None);
}

#[test]
fn parse_u64_agrees_with_std() {
    for text in ["", "+", "++1", "+0", "0", "42", "-0", "18446744073709551615", "18446744073709551616", "1_000", "٣"] {
        assert_eq!(parse_u64(text), text.parse::<u64>().ok(), "{:?}", text);
    }
}

#[test]
fn same_text_compares_characters() {
    assert!(same_text("meta", "meta"));
    assert!(!same_text("meta", "metb"));
    assert!(!same_text("meta", "met"));
    assert!(same_text("", ""));
}
