use habibi_coin::double::Double;

fn one_decimal(x: f64) -> String {
    let mut out = String::new();
    Double::from_bits(x.to_bits()).push_one_decimal(&mut out);
    out
}

fn two_decimals(x: f64) -> String {
    let mut out = String::new();
    Double::from_bits(x.to_bits()).push_two_decimals(&mut out);
    out
}

fn ceiling(x: f64) -> String {
    Double::from_bits(x.to_bits()).ceiling_of().unwrap().to_text()
}

fn samples() -> Vec<f64> {
    let mut values = vec![
        0.0, -0.0, 1.0, -1.0, 0.05, 0.15, 0.25, 0.35, 0.45, 0.5, 0.95, 0.96, 0.99, 0.999, 1.85,
        2.15, 2.25, 4.25, 9.95, 9.96, 99.95, 99.995, 0.005, 0.015, 0.125, 0.375, 1850.155, 2000.0,
        1000.0, 10.0, 3456.789, 1e15, 1e16, 1e17, 1e21, 1e22, 1e23, 1e100, 1e300, 1e-5, 1e-300,
        4294967295.0, 4294967296.5, 9007199254740991.0, 9007199254740992.0, 0.1, 0.2, 0.3, 0.7,
        f64::MAX, f64::MIN, f64::MIN_POSITIVE, f64::EPSILON, 5e-324, 2.5e-324,
        f64::INFINITY, f64::NEG_INFINITY, f64::NAN, -f64::NAN,
    ];
    let mut seed: u64 = 0x9E37_79B9_7F4A_7C15;
    for round in 0..1500u64 {
        seed = seed.wrapping_mul(6364136223846793005).wrapping_add(1442695040888963407);
        values.push(f64::from_bits(seed));
        values.push(((seed >> 20) as f64) / 100.0);
        values.push(((seed >> 44) as f64) / 1000.0);
        values.push((round as f64) * 0.05);
        values.push(-(round as f64) * 0.005);
    }
    values
}

#[test]
fn one_decimal_agrees_with_the_standard_formatting() {
    for x in samples() {
        assert_eq!(one_decimal(x), format!("{:.1}", x), "bits {:#x}", x.to_bits());
    }
}

#[test]
fn two_decimals_agree_with_the_standard_formatting() {
    for x in samples() {
        assert_eq!(two_decimals(x), format!("{:.2}", x), "bits {:#x}", x.to_bits());
    }
}

#[test]
fn ceiling_agrees_with_the_standard_ceiling() {
    for x in samples() {
        if x.is_finite() {
            assert_eq!(ceiling(x.abs()), format!("{:.0}", x.abs().ceil()), "bits {:#x}", x.to_bits());
        }
    }
}

#[test]
fn ties_that_a_double_cannot_hold_go_where_the_double_lies() {
    assert_eq!(one_decimal(1.85), "1.9");
    assert_eq!(one_decimal(2.15), "2.1");
    assert_eq!(one_decimal(0.35), "0.3");
    assert_eq!(one_decimal(0.15), "0.1");
    assert_eq!(two_decimals(1850.155), "1850.15");
    assert_eq!(two_decimals(1.005), "1.00");
}

#[test]
fn ties_that_a_double_holds_go_to_the_even_digit() {
    assert_eq!(one_decimal(0.25), "0.2");
    assert_eq!(one_decimal(0.75), "0.8");
    assert_eq!(one_decimal(2.25), "2.2");
    assert_eq!(one_decimal(4.25), "4.2");
    assert_eq!(two_decimals(0.125), "0.12");
    assert_eq!(two_decimals(0.375), "0.38");
}

#[test]
fn what_is_not_finite_is_named() {
    assert_eq!(one_decimal(f64::INFINITY), "inf");
    assert_eq!(one_decimal(f64::NEG_INFINITY), "-inf");
    assert_eq!(one_decimal(f64::NAN), "NaN");
    assert_eq!(one_decimal(-f64::NAN), "NaN");
    assert_eq!(two_decimals(f64::INFINITY), "inf");
    assert_eq!(two_decimals(f64::NAN), "NaN");
}

#[test]
fn a_negative_double_keeps_its_sign_even_where_it_rounds_to_zero() {
    assert_eq!(one_decimal(-0.0), "-0.0");
    assert_eq!(one_decimal(-0.04), "-0.0");
    assert_eq!(one_decimal(-6.0), "-6.0");
    assert_eq!(two_decimals(-12.345), "-12.35");
}

#[test]
fn large_doubles_are_written_out_in_full() {
    assert_eq!(one_decimal(1e23), "99999999999999991611392.0");
    assert_eq!(one_decimal(18446744073709551616.0), "18446744073709551616.0");
    assert_eq!(ceiling(1e23), "99999999999999991611392");
    assert_eq!(one_decimal(f64::MAX).len(), 311);
}

#[test]
fn the_fields_of_a_double() {
    let two_thousand = Double::from_bits(2000.0f64.to_bits());
    assert_eq!(two_thousand.to_bits(), 0x409F_4000_0000_0000);
    assert!(two_thousand.finite());
    assert!(!two_thousand.has_sign());
    assert!(!two_thousand.not_a_number());
    assert!(Double::from_bits((-1.5f64).to_bits()).has_sign());
    assert!(Double::from_bits(f64::NAN.to_bits()).not_a_number());
    assert!(!Double::from_bits(f64::INFINITY.to_bits()).not_a_number());
    assert!(!Double::from_bits(f64::INFINITY.to_bits()).finite());
    assert!(!Double::from_bits(f64::NAN.to_bits()).finite());
}

#[test]
fn what_is_not_finite_has_no_ceiling() {
    assert!(Double::from_bits(f64::INFINITY.to_bits()).ceiling_of().is_none());
    assert!(Double::from_bits(f64::NEG_INFINITY.to_bits()).ceiling_of().is_none());
    assert!(Double::from_bits(f64::NAN.to_bits()).ceiling_of().is_none());
    assert_eq!(ceiling(-2.5), "3");
}
