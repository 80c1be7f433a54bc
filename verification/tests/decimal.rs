use extenddb_query::decimal::{push_i64_decimal, push_u64_decimal, u64_to_decimal};

#[test]
fn renders_small_and_large_numbers() {
    assert_eq!(u64_to_decimal(0), "0");
    assert_eq!(u64_to_decimal(7), "7");
    assert_eq!(u64_to_decimal(10), "10");
    assert_eq!(u64_to_decimal(1_000_001), "1000001");
    assert_eq!(u64_to_decimal(u64::MAX), "18446744073709551615");
}

#[test]
fn appends_to_existing_text() {
    let mut s = String::from("$");
    push_u64_decimal(&mut s, 42);
    assert_eq!(s, "$42");
}

#[test]
fn renders_signed_numbers() {
    for v in [0i64, 5, -5, 1234, -1234, i64::MAX, i64::MIN] {
        let mut s = String::new();
        push_i64_decimal(&mut s, v);
        assert_eq!(s, v.to_string());
    }
}
