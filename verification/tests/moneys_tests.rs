use transaction_processor::errors::MoneyParseError;
use transaction_processor::{Moneys, MAX_UNITS};

#[test]
fn limits() {
    assert!(
        (MAX_UNITS as f64) < f64::powf(2.0, f64::from(f64::MANTISSA_DIGITS - 1)),
        "BUG: MAX_EXACT doesn't fit twice precisely into f64"
    );
}

#[test]
fn conversion() {
    assert_eq!(Moneys::parse("-0.0").unwrap(), Moneys::new(0));
    assert_eq!(Moneys::parse("0.00004").unwrap(), Moneys::new(0));
    assert_eq!(Moneys::parse("0.00005").unwrap(), Moneys::new(1));
    assert_eq!(Moneys::parse("1").unwrap(), Moneys::new(10_000));
    assert_eq!(Moneys::parse("10000000000.0000").unwrap(), Moneys::max());
    assert!(Moneys::parse("10000000000.0001").is_err());
}

/// Test that we can do arithmetic just below the limit and that it is exact
#[test]
fn exact() {
    let a = Moneys::parse("9999999999.9999").unwrap();
    let b = Moneys::parse("0.0001").unwrap();
    let c = a.add(b).unwrap();
    assert_eq!(a, Moneys::new(99999999999999));
    assert_eq!(b, Moneys::new(1));
    assert_eq!(c, Moneys::max());
    assert_eq!((c.units() as f64) * 0.0001, 10000000000.0000);
}

#[test]
fn add() {
    assert_eq!(Moneys::new(3).add(Moneys::new(5)).unwrap(), Moneys::new(8));
    assert_eq!(Moneys::new(10).add(Moneys::new(0)).unwrap(), Moneys::new(10));
    assert!(Moneys::max().add(Moneys::new(1)).is_err());
    assert_eq!(
        Moneys::new(MAX_UNITS - 1).add(Moneys::new(1)).unwrap(),
        Moneys::max()
    );
}

#[test]
fn sub() {
    assert_eq!(Moneys::new(8).sub(Moneys::new(5)).unwrap(), Moneys::new(3));
    assert_eq!(Moneys::new(10).sub(Moneys::new(0)).unwrap(), Moneys::new(10));
    assert_eq!(Moneys::new(0).sub(Moneys::new(0)).unwrap(), Moneys::new(0));
    assert!(Moneys::new(3).sub(Moneys::new(4)).is_err());
    assert_eq!(Moneys::max().sub(Moneys::max()).unwrap(), Moneys::new(0));
    assert_eq!(
        Moneys::max().sub(Moneys::new(MAX_UNITS - 1)).unwrap(),
        Moneys::new(1)
    );
}

#[test]
fn less_than() {
    assert!(Moneys::new(8).less_than(Moneys::new(10)));
    assert!(Moneys::new(8).less_than(Moneys::max()));
    assert!(!Moneys::new(10).less_than(Moneys::new(0)));
}

/// Addition of two exactly representable values is exact when read back
/// through the floating conversion, to four decimal places.
#[test]
fn add_exact_in_floating_form() {
    let a = Moneys::parse("123.4567").unwrap();
    let b = Moneys::parse("0.5433").unwrap();
    let c = a.add(b).unwrap();
    let fa = (a.units() as f64) * 0.0001;
    let fb = (b.units() as f64) * 0.0001;
    let fc = (c.units() as f64) * 0.0001;
    assert!((fc - (fa + fb)).abs() < 0.00005);
    assert_eq!(c, Moneys::new(1_240_000));
}

#[test]
fn rounding_past_fourth_place() {
    assert_eq!(Moneys::parse("0.00015").unwrap(), Moneys::new(2));
    assert_eq!(Moneys::parse("1.00005").unwrap(), Moneys::new(10_001));
    assert_eq!(Moneys::parse("0.000049999").unwrap(), Moneys::new(0));
    assert_eq!(Moneys::parse("-0.00004").unwrap(), Moneys::new(0));
    assert!(Moneys::parse("-0.00005").is_err());
}

#[test]
fn parse_shapes() {
    assert_eq!(Moneys::parse(".5").unwrap(), Moneys::new(5_000));
    assert_eq!(Moneys::parse("5.").unwrap(), Moneys::new(50_000));
    assert_eq!(Moneys::parse("+2.5").unwrap(), Moneys::new(25_000));
    assert!(Moneys::parse("").is_err());
    assert!(Moneys::parse(".").is_err());
    assert!(Moneys::parse("-").is_err());
    assert!(Moneys::parse("1.2.3").is_err());
    assert!(Moneys::parse("1e5").is_err());
    assert!(Moneys::parse("abc").is_err());
}

#[test]
fn parse_error_causes() {
    assert_eq!(Moneys::parse("oops"), Err(MoneyParseError::Malformed));
    assert_eq!(Moneys::parse("-1"), Err(MoneyParseError::NegativeValue));
    assert_eq!(
        Moneys::parse("10000000000.0001"),
        Err(MoneyParseError::RangeOverflow)
    );
    assert_eq!(
        Moneys::parse("99999999999999999999999"),
        Err(MoneyParseError::RangeOverflow)
    );
    assert_eq!(
        Moneys::parse("-99999999999999999999999"),
        Err(MoneyParseError::NegativeValue)
    );
}
