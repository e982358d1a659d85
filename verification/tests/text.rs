use datafusion_loki::text::{i64_to_decimal, join, u128_to_decimal, usize_to_decimal};

#[test]
fn signed_integers_in_decimal() {
    let values = [
        0,
        1,
        -1,
        9,
        10,
        -10,
        99,
        100,
        12345,
        -12345,
        1_700_000_000_000_000_000,
        i64::MAX,
        i64::MIN,
        i64::MIN + 1,
    ];
    for value in values {
        assert_eq!(i64_to_decimal(value), value.to_string());
    }
    assert_eq!(i64_to_decimal(-9223372036854775808), "-9223372036854775808");
    assert_eq!(i64_to_decimal(1762905600000000000), "1762905600000000000");
}

#[test]
fn unsigned_integers_in_decimal() {
    for value in [0u128, 7, 10, 4096, u64::MAX as u128] {
        assert_eq!(u128_to_decimal(value), value.to_string());
    }
    for value in [0usize, 3, 1000, usize::MAX] {
        assert_eq!(usize_to_decimal(value), value.to_string());
    }
    assert_eq!(u128_to_decimal(u128::MAX), u128::MAX.to_string());
    assert_eq!(u128_to_decimal(0), "0");
    assert_eq!(u128_to_decimal(18446744073709551615), "18446744073709551615");
}

#[test]
fn every_small_integer_in_decimal() {
    for value in -2000i64..2000 {
        assert_eq!(i64_to_decimal(value), value.to_string());
    }
}

#[test]
fn texts_are_joined_with_the_separator_between_them() {
    let parts = vec!["a".to_string(), "b".to_string(), "c".to_string()];
    assert_eq!(join(&parts, ", "), "a, b, c");
    assert_eq!(join(&parts, ""), "abc");
    assert_eq!(join(&vec!["only".to_string()], ", "), "only");
    assert_eq!(join(&Vec::new(), ", "), "");
    assert_eq!(join(&vec![String::new(), String::new()], "-"), "-");
}
