use keyring::text::{has_non_blank_value, percent_encode, trim};

#[test]
fn percent_encode_keeps_unreserved_and_escapes_the_rest() {
    assert_eq!(percent_encode("a-Z_0.~"), "a-Z_0.~");
    assert_eq!(percent_encode("a b&c=d"), "a%20b%26c%3Dd");
    assert_eq!(percent_encode("é"), "%C3%A9");
}

#[test]
fn trim_and_blank_values() {
    assert_eq!(trim("  name \t"), "name");
    assert!(!has_non_blank_value(None));
    assert!(!has_non_blank_value(Some("  ")));
    assert!(has_non_blank_value(Some("2026-08-11T00:00:00Z")));
}
