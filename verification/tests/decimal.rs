use basics::decimal::{signed_text, unsigned_text};

#[test]
fn unsigned_text_writes_single_digits() {
    assert_eq!(unsigned_text(0), "0");
    assert_eq!(unsigned_text(1), "1");
    assert_eq!(unsigned_text(5), "5");
    assert_eq!(unsigned_text(9), "9");
}

#[test]
fn unsigned_text_writes_several_digits() {
    assert_eq!(unsigned_text(10), "10");
    assert_eq!(unsigned_text(50), "50");
    assert_eq!(unsigned_text(99), "99");
    assert_eq!(unsigned_text(100), "100");
    assert_eq!(unsigned_text(101), "101");
    assert_eq!(unsigned_text(300), "300");
    assert_eq!(unsigned_text(1234567890), "1234567890");
}

#[test]
fn unsigned_text_writes_the_largest_number() {
    assert_eq!(unsigned_text(u64::MAX), "18446744073709551615");
}

#[test]
fn unsigned_text_agrees_with_the_standard_formatting() {
    let mut n: u64 = 0;
    while n <= 2000 {
        assert_eq!(unsigned_text(n), format!("{}", n));
        n += 1;
    }
    let mut power: u64 = 1;
    while power <= u64::MAX / 10 {
        assert_eq!(unsigned_text(power), format!("{}", power));
        assert_eq!(unsigned_text(power - 1), format!("{}", power - 1));
        assert_eq!(unsigned_text(power + 1), format!("{}", power + 1));
        power *= 10;
    }
}

#[test]
fn unsigned_text_reads_back_as_the_number() {
    for n in [0u64, 7, 10, 42, 255, 256, 65535, 4294967296, u64::MAX] {
        assert_eq!(unsigned_text(n).parse::<u64>(), Ok(n));
    }
}

#[test]
fn unsigned_text_has_no_leading_zero() {
    for n in [1u64, 10, 100, 1000, 10000, 100000] {
        assert!(!unsigned_text(n).starts_with('0'));
    }
}

#[test]
fn signed_text_writes_what_is_not_negative_without_a_sign() {
    assert_eq!(signed_text(0), "0");
    assert_eq!(signed_text(300), "300");
    assert_eq!(signed_text(i64::MAX), "9223372036854775807");
}

#[test]
fn signed_text_writes_a_minus_sign_before_a_negative_number() {
    assert_eq!(signed_text(-1), "-1");
    assert_eq!(signed_text(-45), "-45");
    assert_eq!(signed_text(-300), "-300");
    assert_eq!(signed_text(i64::MIN), "-9223372036854775808");
}

#[test]
fn signed_text_agrees_with_the_standard_formatting() {
    let mut n: i64 = -1500;
    while n <= 1500 {
        assert_eq!(signed_text(n), format!("{}", n));
        n += 1;
    }
    for n in [i32::MIN as i64, i32::MAX as i64, i64::MIN + 1, i64::MAX - 1] {
        assert_eq!(signed_text(n), format!("{}", n));
    }
}
