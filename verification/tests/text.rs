use clove1db::text::{ends_with, hex_encode, hex_u64_16, last_index_of, parse_u64, path_join, str_lt, u64_to_decimal};

#[test]
fn decimal_and_parsing() {
    assert_eq!(u64_to_decimal(0), "0");
    assert_eq!(u64_to_decimal(1234567890), "1234567890");
    assert_eq!(u64_to_decimal(u64::MAX), u64::MAX.to_string());
    assert_eq!(parse_u64("42"), Some(42));
    assert_eq!(parse_u64("+7"), Some(7));
    assert_eq!(parse_u64("18446744073709551615"), Some(u64::MAX));
    assert_eq!(parse_u64("18446744073709551616"), None);
    assert_eq!(parse_u64(""), None);
    assert_eq!(parse_u64("+"), None);
    assert_eq!(parse_u64("-1"), None);
    assert_eq!(parse_u64("1a"), None);
}

#[test]
fn hex_rendering() {
    assert_eq!(hex_encode(&[0, 15, 16, 255]), "000f10ff");
    assert_eq!(hex_u64_16(0xabc), "0000000000000abc");
    assert_eq!(hex_u64_16(u64::MAX), "ffffffffffffffff");
}

#[test]
fn paths_and_search() {
    assert_eq!(path_join("a", "b"), "a/b");
    assert_eq!(path_join("a/", "b"), "a/b");
    assert_eq!(path_join("", "b"), "b");
    assert_eq!(path_join("a", "/abs"), "/abs");
    assert!(ends_with("users.cldb", ".cldb"));
    assert!(!ends_with("db", ".cldb"));
    assert_eq!(last_index_of("a:b:c", ':'), Some(3));
    assert_eq!(last_index_of("abc", ':'), None);
}

#[test]
fn text_order_is_code_point_order() {
    assert!(str_lt("a", "b"));
    assert!(str_lt("ab", "abc"));
    assert!(!str_lt("abc", "ab"));
    assert!(!str_lt("a", "a"));
    assert!(str_lt("Z", "a"));
    assert!(str_lt("z", "é"));
}
