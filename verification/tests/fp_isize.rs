use ledger::fp_isize::{AmountError, FpIsize};

#[test]
fn neg() {
    let number = FpIsize::<4>::new(-10000);

    assert_eq!(number.to_decimal_string(), "-1.0000");

    let number = FpIsize::<4>::new(-100);

    assert_eq!(number.to_decimal_string(), "-0.0100");
}

#[test]
fn parse() {
    let number = FpIsize::<0>::from_parts("10", "15");

    assert_eq!(number, Err(AmountError::PrecisionExceeded));

    let number = FpIsize::<1>::from_parts("10", "15");

    assert_eq!(number, Err(AmountError::PrecisionExceeded));

    let number = FpIsize::<2>::from_parts("10", "15");

    assert_eq!(number, Ok(FpIsize::new(1015)));

    let number = FpIsize::<4>::from_parts("10", "15");

    assert_eq!(number, Ok(FpIsize::new(101500)));

    let number = FpIsize::<4>::from_parts("0", "15");

    assert_eq!(number, Ok(FpIsize::new(1500)));
}

#[test]
fn format() {
    let number = FpIsize::<2>::new(1010);

    assert_eq!(number.to_decimal_string(), "10.10");

    let number = FpIsize::<4>::new(1010);

    assert_eq!(number.to_decimal_string(), "0.1010");
}
