use pngme::text::{push_bytes, push_decimal};

fn decimal_of(n: u64) -> String {
    let mut out = String::new();
    push_decimal(&mut out, n);
    out
}

fn list_of(bytes: &[u8]) -> String {
    let mut out = String::new();
    push_bytes(&mut out, bytes);
    out
}

#[test]
fn decimal_has_no_leading_zeros() {
    assert_eq!(decimal_of(0), "0");
    assert_eq!(decimal_of(7), "7");
    assert_eq!(decimal_of(9), "9");
    assert_eq!(decimal_of(10), "10");
    assert_eq!(decimal_of(42), "42");
    assert_eq!(decimal_of(100), "100");
    assert_eq!(decimal_of(1234567890), "1234567890");
    assert_eq!(decimal_of(2882656334), "2882656334");
    assert_eq!(decimal_of(u64::MAX), "18446744073709551615");
}

#[test]
fn decimal_agrees_with_the_standard_library() {
    for n in [0u64, 1, 9, 10, 11, 99, 100, 101, 999, 1000, 4294967295, 4294967296] {
        assert_eq!(decimal_of(n), n.to_string());
    }
}

#[test]
fn decimal_is_appended_to_what_is_there() {
    let mut out = String::from("n = ");
    push_decimal(&mut out, 305);
    assert_eq!(out, "n = 305");
}

#[test]
fn byte_list_is_bracketed_and_comma_separated() {
    assert_eq!(list_of(&[]), "[]");
    assert_eq!(list_of(&[0]), "[0]");
    assert_eq!(list_of(&[1, 2, 3]), "[1, 2, 3]");
    assert_eq!(list_of(&[255, 0, 128, 10]), "[255, 0, 128, 10]");
    assert_eq!(list_of(&[84, 104, 105, 115]), format!("{:?}", [84u8, 104, 105, 115]));
    let mut out = String::from("data ");
    push_bytes(&mut out, &[9, 8]);
    assert_eq!(out, "data [9, 8]");
}
