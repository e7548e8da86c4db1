use portal_watch::text::{extract_query_param, join_lines, split_str, u64_to_string};

#[test]
fn split_on_ampersand() {
    let parts = split_str("a=1&b=2&c=3", '&');
    assert_eq!(parts, vec!["a=1".to_string(), "b=2".to_string(), "c=3".to_string()]);
}

#[test]
fn split_empty_text_is_one_empty_piece() {
    let parts = split_str("", '&');
    assert_eq!(parts, vec![String::new()]);
}

#[test]
fn split_trailing_separator_keeps_empty_piece() {
    let parts = split_str("a&", '&');
    assert_eq!(parts, vec!["a".to_string(), String::new()]);
}

#[test]
fn split_leading_separator_keeps_empty_piece() {
    let parts = split_str("&a", '&');
    assert_eq!(parts, vec![String::new(), "a".to_string()]);
}

#[test]
fn query_param_finds_value() {
    assert_eq!(extract_query_param("entityId=42&authnLcKey=xyz", "entityId"), Some("42".to_string()));
    assert_eq!(extract_query_param("entityId=42&authnLcKey=xyz", "authnLcKey"), Some("xyz".to_string()));
}

#[test]
fn query_param_missing_key() {
    assert_eq!(extract_query_param("entityId=42", "authnLcKey"), None);
    assert_eq!(extract_query_param("", "entityId"), None);
}

#[test]
fn query_param_takes_text_between_first_and_second_equals() {
    assert_eq!(extract_query_param("a=b=c", "a"), Some("b".to_string()));
}

#[test]
fn query_param_last_occurrence_wins() {
    assert_eq!(extract_query_param("a=1&a=2", "a"), Some("2".to_string()));
}

#[test]
fn query_param_segment_without_equals_is_skipped() {
    assert_eq!(extract_query_param("noise&a=1", "a"), Some("1".to_string()));
    assert_eq!(extract_query_param("noise", "noise"), None);
}

#[test]
fn decimal_rendering() {
    assert_eq!(u64_to_string(0), "0");
    assert_eq!(u64_to_string(7), "7");
    assert_eq!(u64_to_string(10), "10");
    assert_eq!(u64_to_string(90210), "90210");
    assert_eq!(u64_to_string(u64::MAX), "18446744073709551615");
}

#[test]
fn joining_lines() {
    assert_eq!(join_lines(&vec![]), "");
    assert_eq!(join_lines(&vec!["one".to_string()]), "one");
    assert_eq!(join_lines(&vec!["one".to_string(), "two".to_string()]), "one\ntwo");
}
