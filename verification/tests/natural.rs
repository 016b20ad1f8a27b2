use habibi_coin::natural::Natural;

#[test]
fn a_natural_is_written_in_decimal() {
    assert_eq!(Natural::from_u128(0).to_text(), "0");
    assert_eq!(Natural::from_u128(7).to_text(), "7");
    assert_eq!(Natural::from_u128(10).to_text(), "10");
    assert_eq!(Natural::from_u128(4_294_967_295).to_text(), "4294967295");
    assert_eq!(
        Natural::from_u128(u128::MAX).to_text(),
        "340282366920938463463374607431768211455"
    );
}

#[test]
fn doubling_carries() {
    assert_eq!(Natural::from_u128(0).double().to_text(), "0");
    assert_eq!(Natural::from_u128(4).double().to_text(), "8");
    assert_eq!(Natural::from_u128(5).double().to_text(), "10");
    assert_eq!(Natural::from_u128(999).double().to_text(), "1998");
    assert_eq!(Natural::from_u128(4999).double().to_text(), "9998");
    assert_eq!(
        Natural::from_u128(u128::MAX).double().to_text(),
        "680564733841876926926749214863536422910"
    );
    for n in 0..2000u128 {
        assert_eq!(Natural::from_u128(n).double().to_text(), (2 * n).to_string());
    }
}

#[test]
fn shifting_multiplies_by_a_power_of_two() {
    assert_eq!(Natural::shifted(0, 100).to_text(), "0");
    assert_eq!(Natural::shifted(3, 0).to_text(), "3");
    assert_eq!(Natural::shifted(3, 4).to_text(), "48");
    assert_eq!(Natural::shifted(1, 64).to_text(), "18446744073709551616");
    assert_eq!(Natural::shifted(1, 127).to_text(), (1u128 << 127).to_string());
    assert_eq!(
        Natural::shifted(1, 200).to_text(),
        "1606938044258990275541962092341162602522202993782792835301376"
    );
    for e in 0..100u32 {
        assert_eq!(Natural::shifted(12345, e).to_text(), (12345u128 << e).to_string());
    }
}

#[test]
fn push_text_appends() {
    let mut out = String::from("n = ");
    Natural::from_u128(1200).push_text(&mut out);
    assert_eq!(out, "n = 1200");
}
