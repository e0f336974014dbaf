use container_monitor::double::Double;
use container_monitor::rounding::{div_round_half_even, pow10_u64, pow2_u128};
use container_monitor::text::{push_decimal, push_digit, push_padded, push_signed, reads_as, strip_leading_slash};

#[test]
fn push_digit_appends_one_character() {
    let mut out = String::from("x");
    push_digit(&mut out, 0);
    push_digit(&mut out, 7);
    push_digit(&mut out, 9);
    assert_eq!(out, "x079");
}

#[test]
fn push_decimal_writes_the_numeral() {
    for n in [0u128, 5, 9, 10, 11, 99, 100, 12345, u64::MAX as u128, u128::MAX] {
        let mut out = String::from("n=");
        push_decimal(&mut out, n);
        assert_eq!(out, format!("n={}", n));
    }
}

#[test]
fn push_padded_keeps_the_last_digits() {
    let mut out = String::new();
    push_padded(&mut out, 5, 2);
    assert_eq!(out, "05");
    let mut out = String::new();
    push_padded(&mut out, 0, 3);
    assert_eq!(out, "000");
    let mut out = String::new();
    push_padded(&mut out, 12345, 2);
    assert_eq!(out, "45");
    let mut out = String::from("a");
    push_padded(&mut out, 12345, 0);
    assert_eq!(out, "a");
    let mut out = String::new();
    push_padded(&mut out, 42, 5);
    assert_eq!(out, "00042");
}

#[test]
fn push_signed_writes_the_sign() {
    for i in [0i64, 1, -1, 42, -42, i64::MAX, i64::MIN] {
        let mut out = String::from("[");
        push_signed(&mut out, i);
        assert_eq!(out, format!("[{}", i));
    }
}

#[test]
fn strip_leading_slash_removes_at_most_one() {
    assert_eq!(strip_leading_slash(""), "");
    assert_eq!(strip_leading_slash("/"), "");
    assert_eq!(strip_leading_slash("a"), "a");
    assert_eq!(strip_leading_slash("/a"), "a");
    assert_eq!(strip_leading_slash("a/"), "a/");
    assert_eq!(strip_leading_slash("///a"), "//a");
}

#[test]
fn reads_as_compares_whole_texts() {
    assert!(reads_as(&"running".to_string(), "running"));
    assert!(!reads_as(&"running".to_string(), "runnin"));
    assert!(!reads_as(&"run".to_string(), "running"));
    assert!(reads_as(&String::new(), ""));
}

#[test]
fn div_round_half_even_rounds_to_nearest() {
    assert_eq!(div_round_half_even(0, 7), 0);
    assert_eq!(div_round_half_even(7, 7), 1);
    assert_eq!(div_round_half_even(10, 4), 2);
    assert_eq!(div_round_half_even(14, 4), 4);
    assert_eq!(div_round_half_even(11, 4), 3);
    assert_eq!(div_round_half_even(9, 4), 2);
    assert_eq!(div_round_half_even(1, 2), 0);
    assert_eq!(div_round_half_even(3, 2), 2);
    assert_eq!(div_round_half_even(5, 2), 2);
    assert_eq!(div_round_half_even(5, 3), 2);
    assert_eq!(div_round_half_even(4, 3), 1);
    assert_eq!(div_round_half_even(12345, 1), 12345);
    assert_eq!(div_round_half_even(u128::MAX - 1, 2), u128::MAX / 2);
}

#[test]
fn powers_of_two_and_ten() {
    assert_eq!(pow2_u128(0), 1);
    assert_eq!(pow2_u128(1), 2);
    assert_eq!(pow2_u128(53), 1 << 53);
    assert_eq!(pow2_u128(126), 1 << 126);
    assert_eq!(pow10_u64(0), 1);
    assert_eq!(pow10_u64(1), 10);
    assert_eq!(pow10_u64(2), 100);
    assert_eq!(pow10_u64(9), 1_000_000_000);
}

#[test]
fn shifted_down_halves_the_value() {
    let value = Double::from_count(1536);
    assert_eq!(value.shifted_down(10).to_bits(), 1.5f64.to_bits());
    assert_eq!(value.shifted_down(0).to_bits(), 1536.0f64.to_bits());
    assert_eq!(value.shifted_down(64).to_bits(), (1536.0f64 / 18_446_744_073_709_551_616.0).to_bits());
    assert_eq!(Double::zero().shifted_down(10).to_bits(), 0.0f64.to_bits());
}

#[test]
fn doubles_compare_by_value() {
    assert_eq!(Double::percent_of(1, 2), Double::percent_of(2, 4));
    assert_eq!(Double::percent_of(0, 5), Double::zero());
    assert_ne!(Double::percent_of(1, 3), Double::percent_of(1, 2));
    assert_eq!(Double::from_count(100), Double::percent_of(1, 1));
}
