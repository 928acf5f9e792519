use orga::coins::{Amount, Decimal};

#[test]
fn format() {
    let formatted: Decimal = Amount::new(123).div_amount(Amount::new(100)).unwrap();
    assert_eq!(formatted.to_string(), "1.23");
}

#[test]
fn format_whole_and_negative() {
    assert_eq!(Decimal::from_u64(5).to_string(), "5");
    let minus = Decimal::zero().checked_sub(Decimal::from_u64(7)).unwrap();
    assert_eq!(minus.to_string(), "-7");
}

#[test]
fn from_str_parses_and_refuses() {
    let d = Decimal::from_str("1.23").unwrap();
    assert_eq!(d.to_string(), "1.23");
    assert_eq!(d.scale, 2);
    assert!(matches!(Decimal::from_str("abc"), Err(orga::error::Error::InvalidDecimal)));
}
