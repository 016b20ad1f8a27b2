use habibi_coin::decimal::{push_decimal, push_digit};
use habibi_coin::quotient::{ceiling_of_quotient, nearest_to_quotient};

fn decimal(n: u128) -> String {
    let mut out = String::new();
    push_decimal(&mut out, n);
    out
}

#[test]
fn whole_numbers_in_decimal() {
    assert_eq!(decimal(0), "0");
    assert_eq!(decimal(7), "7");
    assert_eq!(decimal(10), "10");
    assert_eq!(decimal(1234567890), "1234567890");
    assert_eq!(decimal(u128::MAX), "340282366920938463463374607431768211455");
    for n in [0u128, 9, 99, 100, 101, 4_294_967_295, 18_446_744_073_709_551_616] {
        assert_eq!(decimal(n), n.to_string());
    }
}

#[test]
fn push_decimal_appends() {
    let mut out = String::from("n = ");
    push_decimal(&mut out, 42);
    assert_eq!(out, "n = 42");
}

#[test]
fn single_digits() {
    let mut out = String::new();
    for d in 0..10 {
        push_digit(&mut out, d);
    }
    assert_eq!(out, "0123456789");
}

#[test]
fn ceiling_of_a_quotient() {
    assert_eq!(ceiling_of_quotient(0, 7), 0);
    assert_eq!(ceiling_of_quotient(1, 7), 1);
    assert_eq!(ceiling_of_quotient(7, 7), 1);
    assert_eq!(ceiling_of_quotient(8, 7), 2);
    assert_eq!(ceiling_of_quotient(14, 7), 2);
    assert_eq!(ceiling_of_quotient(u128::MAX, 1), u128::MAX);
    assert_eq!(ceiling_of_quotient(u128::MAX, u128::MAX), 1);
    assert_eq!(ceiling_of_quotient(u128::MAX, 2), u128::MAX / 2 + 1);
}

#[test]
fn nearest_whole_number_to_a_quotient() {
    assert_eq!(nearest_to_quotient(0, 4), 0);
    assert_eq!(nearest_to_quotient(1, 4), 0);
    assert_eq!(nearest_to_quotient(2, 4), 0);
    assert_eq!(nearest_to_quotient(3, 4), 1);
    assert_eq!(nearest_to_quotient(5, 4), 1);
    assert_eq!(nearest_to_quotient(6, 4), 2);
    assert_eq!(nearest_to_quotient(7, 4), 2);
    assert_eq!(nearest_to_quotient(10, 4), 2);
    assert_eq!(nearest_to_quotient(14, 4), 4);
    assert_eq!(nearest_to_quotient(7, 3), 2);
    assert_eq!(nearest_to_quotient(8, 3), 3);
    assert_eq!(nearest_to_quotient(u128::MAX, 1), u128::MAX);
    assert_eq!(nearest_to_quotient(u128::MAX, u128::MAX), 1);
    assert_eq!(nearest_to_quotient(u128::MAX - 1, u128::MAX), 1);
    assert_eq!(nearest_to_quotient(u128::MAX / 2, u128::MAX), 0);
    assert_eq!(nearest_to_quotient(u128::MAX / 2 + 1, u128::MAX), 1);
}
