use tinydb::text::{decimal_string, parse_u32, split_at_char, split_tokens};

#[test]
fn decimal_rendering() {
    assert_eq!(decimal_string(0), "0");
    assert_eq!(decimal_string(10), "10");
    assert_eq!(decimal_string(4294967295), "4294967295");
}

#[test]
fn unsigned_parsing() {
    assert_eq!(parse_u32("42"), Some(42));
    assert_eq!(parse_u32("+42"), Some(42));
    assert_eq!(parse_u32(""), None);
    assert_eq!(parse_u32("+"), None);
    assert_eq!(parse_u32("4x"), None);
    assert_eq!(parse_u32("4294967296"), None);
    assert_eq!(parse_u32("99999999999999999999x"), None);
}

#[test]
fn splitting() {
    assert!(split_tokens("").is_empty());
    assert_eq!(split_tokens("a  b"), vec!["a".to_string(), "".to_string(), "b".to_string()]);
    assert_eq!(split_tokens(" "), vec!["".to_string(), "".to_string()]);
    assert_eq!(split_at_char("x\ny\n", '\n'), vec!["x".to_string(), "y".to_string(), "".to_string()]);
}
