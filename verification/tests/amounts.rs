use namada_args::amount::{parse_denominated, parse_gas_limit, Amount, DenomAmount};
use namada_args::errors::{ArgError, Field};

fn da(mantissa: u128, denom: u8) -> DenomAmount {
    DenomAmount { mantissa, denom }
}

#[test]
fn parses_whole_numbers() {
    assert_eq!(parse_denominated("0"), Some(da(0, 0)));
    assert_eq!(parse_denominated("7"), Some(da(7, 0)));
    assert_eq!(parse_denominated("25000"), Some(da(25000, 0)));
    assert_eq!(parse_denominated("007"), Some(da(7, 0)));
}

#[test]
fn parses_fractions() {
    assert_eq!(parse_denominated("10.0"), Some(da(100, 1)));
    assert_eq!(parse_denominated("0.5"), Some(da(5, 1)));
    assert_eq!(parse_denominated("123.456"), Some(da(123456, 3)));
    assert_eq!(parse_denominated("0.000001"), Some(da(1, 6)));
}

#[test]
fn rejects_malformed_amounts() {
    assert_eq!(parse_denominated(""), None);
    assert_eq!(parse_denominated("."), None);
    assert_eq!(parse_denominated(".5"), None);
    assert_eq!(parse_denominated("5."), None);
    assert_eq!(parse_denominated("1.2.3"), None);
    assert_eq!(parse_denominated("1,2"), None);
    assert_eq!(parse_denominated("abc"), None);
    assert_eq!(parse_denominated("-1"), None);
    assert_eq!(parse_denominated("1e6"), None);
    assert_eq!(parse_denominated("1 0"), None);
}

#[test]
fn rejects_overlarge_amounts() {
    // u128::MAX parses; one more does not
    assert_eq!(
        parse_denominated("340282366920938463463374607431768211455"),
        Some(da(u128::MAX, 0))
    );
    assert_eq!(parse_denominated("340282366920938463463374607431768211456"), None);
}

#[test]
fn canonical_form_reparses_to_the_same_amount() {
    // the canonical string of (100, 1) is "10.0", of (5, 1) is "0.5",
    // of (0, 0) is "0"; re-parsing each yields the amount back exactly
    assert_eq!(parse_denominated("10.0"), Some(da(100, 1)));
    assert_eq!(parse_denominated("0.5"), Some(da(5, 1)));
    assert_eq!(parse_denominated("0"), Some(da(0, 0)));
    assert_eq!(parse_denominated("1.000000"), Some(da(1000000, 6)));
    assert_eq!(parse_denominated("0.007"), Some(da(7, 3)));
}

#[test]
fn native_amounts_scale_to_six_places() {
    assert_eq!(Amount::from_str("10.0").unwrap().micro, 10_000_000);
    assert_eq!(Amount::from_str("12.5").unwrap().micro, 12_500_000);
    assert_eq!(Amount::from_str("0").unwrap().micro, 0);
    assert_eq!(Amount::from_str("0.000001").unwrap().micro, 1);
    // more fractional digits than the native precision are rejected
    assert_eq!(
        Amount::from_str("1.2345678").unwrap_err(),
        ArgError::InvalidValueError(Field::Amount)
    );
}

#[test]
fn gas_limits_are_whole_u64() {
    assert_eq!(parse_gas_limit("0").unwrap(), 0);
    assert_eq!(parse_gas_limit("25000").unwrap(), 25000);
    assert_eq!(parse_gas_limit("18446744073709551615").unwrap(), u64::MAX);
    assert_eq!(
        parse_gas_limit("18446744073709551616").unwrap_err(),
        ArgError::InvalidValueError(Field::GasLimit)
    );
    assert_eq!(parse_gas_limit("1.5").unwrap_err(), ArgError::InvalidValueError(Field::GasLimit));
    assert_eq!(parse_gas_limit("gas").unwrap_err(), ArgError::InvalidValueError(Field::GasLimit));
}
