use raisin::amount::Amount;
use raisin::units::{from_base_units, to_base_units, UnitError};

fn to_units(text: &str, decimals: u64) -> Result<Amount, UnitError> {
    to_base_units(text.as_bytes(), decimals)
}

fn from_units(a: &Amount, decimals: u64) -> String {
    String::from_utf8(from_base_units(a, decimals).unwrap()).unwrap()
}

#[test]
fn one_point_five_at_six_decimals() {
    let a = to_units("1.5", 6).unwrap();
    assert_eq!(a.digits, vec![1, 5, 0, 0, 0, 0, 0]);
}

#[test]
fn excess_fraction_is_invalid_precision() {
    assert_eq!(to_units("1.5", 0).unwrap_err(), UnitError::InvalidPrecision);
    assert_eq!(to_units("0.1234567", 6).unwrap_err(), UnitError::InvalidPrecision);
}

#[test]
fn negative_is_invalid_amount() {
    assert_eq!(to_units("-1", 18).unwrap_err(), UnitError::InvalidAmount);
}

#[test]
fn malformed_text_is_invalid_amount() {
    assert_eq!(to_units("", 6).unwrap_err(), UnitError::InvalidAmount);
    assert_eq!(to_units(".5", 6).unwrap_err(), UnitError::InvalidAmount);
    assert_eq!(to_units("1.", 6).unwrap_err(), UnitError::InvalidAmount);
    assert_eq!(to_units("1.2.3", 6).unwrap_err(), UnitError::InvalidAmount);
    assert_eq!(to_units("12a", 6).unwrap_err(), UnitError::InvalidAmount);
    assert_eq!(to_units("+1", 6).unwrap_err(), UnitError::InvalidAmount);
}

#[test]
fn precision_above_255_is_invalid_precision() {
    assert_eq!(to_units("1", 256).unwrap_err(), UnitError::InvalidPrecision);
    assert_eq!(to_units("1", u64::MAX).unwrap_err(), UnitError::InvalidPrecision);
}

#[test]
fn precision_255_is_accepted() {
    // One base unit of a token with the largest allowed precision.
    let text = format!("0.{}1", "0".repeat(254));
    let a = to_units(&text, 255).unwrap();
    assert_eq!(a.digits, vec![1]);
    // The same fraction at one less precision carries excess digits.
    assert_eq!(to_units(&text, 254).unwrap_err(), UnitError::InvalidPrecision);
}

#[test]
fn zero_inputs_scale_to_zero() {
    assert_eq!(to_units("0", 18).unwrap().digits, Vec::<u8>::new());
    assert_eq!(to_units("0.000", 3).unwrap().digits, Vec::<u8>::new());
    assert_eq!(to_units("000", 2).unwrap().digits, Vec::<u8>::new());
}

#[test]
fn leading_zeros_are_normalized() {
    let a = to_units("007.25", 3).unwrap();
    assert_eq!(a.digits, vec![7, 2, 5, 0]);
}

#[test]
fn overflow_at_the_chain_width() {
    // The largest value that fits 256 bits, as integer base units.
    let max =
        "115792089237316195423570985008687907853269984665640564039457584007913129639935";
    let a = to_units(max, 0).unwrap();
    assert_eq!(a.digits.len(), 78);
    // One more does not fit.
    let over =
        "115792089237316195423570985008687907853269984665640564039457584007913129639936";
    assert_eq!(to_units(over, 0).unwrap_err(), UnitError::AmountOverflow);
    // Scaling can overflow too: the max value with one decimal of scale.
    assert_eq!(to_units(max, 1).unwrap_err(), UnitError::AmountOverflow);
}

#[test]
fn rendering_divides_exactly() {
    assert_eq!(from_units(&to_units("1.5", 6).unwrap(), 6), "1.5");
    assert_eq!(from_units(&Amount::from_u64(1_500_000), 6), "1.5");
    assert_eq!(from_units(&Amount::from_u64(1_500_000), 0), "1500000");
    assert_eq!(from_units(&Amount::from_u64(5), 3), "0.005");
    assert_eq!(from_units(&Amount::from_u64(0), 18), "0");
    assert_eq!(from_units(&Amount::from_u64(1000), 3), "1");
}

#[test]
fn rendering_rejects_bad_precision() {
    let a = Amount::from_u64(1);
    assert_eq!(from_base_units(&a, 256).unwrap_err(), UnitError::InvalidPrecision);
}

#[test]
fn round_trip_reproduces_canonical_text() {
    for (text, p) in [
        ("1.5", 6),
        ("0.5", 1),
        ("123", 0),
        ("0", 18),
        ("1.05", 9),
        ("10", 2),
        ("999999999999999999999.000000000000000001", 18),
    ] {
        let a = to_units(text, p).unwrap();
        assert_eq!(from_units(&a, p), text, "round trip of {}", text);
    }
}

#[test]
fn non_canonical_text_renders_canonically() {
    // Trailing fractional zeros and leading integer zeros are not
    // reproduced: the rendering is deterministic and canonical.
    let a = to_units("01.50", 6).unwrap();
    assert_eq!(from_units(&a, 6), "1.5");
}

#[test]
fn from_u64_builds_canonical_digits() {
    assert_eq!(Amount::from_u64(0).digits, Vec::<u8>::new());
    assert_eq!(Amount::from_u64(7).digits, vec![7]);
    assert_eq!(Amount::from_u64(1_234_567_890).digits, vec![1, 2, 3, 4, 5, 6, 7, 8, 9, 0]);
    assert_eq!(Amount::from_u64(u64::MAX).digits, vec![
        1, 8, 4, 4, 6, 7, 4, 4, 0, 7, 3, 7, 0, 9, 5, 5, 1, 6, 1, 5,
    ]);
}
