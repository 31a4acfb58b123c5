use rtic_scope_recovery::text::{byte_list_string, decimal_string, join};

#[test]
fn decimal_string_writes_digits() {
    assert_eq!(decimal_string(0), "0");
    assert_eq!(decimal_string(7), "7");
    assert_eq!(decimal_string(10), "10");
    assert_eq!(decimal_string(65535), "65535");
    assert_eq!(decimal_string(u64::MAX), "18446744073709551615");
}

#[test]
fn join_puts_separator_between_parts() {
    assert_eq!(join(&vec![], "::"), "");
    assert_eq!(join(&vec!["app".to_string()], "::"), "app");
    assert_eq!(join(&vec!["app".to_string(), "foo".to_string()], "::"), "app::foo");
}

#[test]
fn byte_list_string_matches_debug_format() {
    assert_eq!(byte_list_string(&vec![]), format!("{:?}", Vec::<u8>::new()));
    assert_eq!(byte_list_string(&vec![3, 5]), format!("{:?}", vec![3u8, 5u8]));
    assert_eq!(byte_list_string(&vec![0, 255, 10]), "[0, 255, 10]");
}
