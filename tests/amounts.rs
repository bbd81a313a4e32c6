use disperse_collect::amount::{default_units, normalize_amount, FractionOrAmount, FractionalAmount};
use disperse_collect::uint::Uint256;

fn n(v: u64) -> Uint256 {
    Uint256::from_u64(v)
}

#[test]
fn should_calculate_correct_amount() {
    let f = FractionalAmount {
        fraction: n(110),
        units: n(1000),
    };

    assert_eq!(n(11), f.to_absolute(n(100)).unwrap());
}

#[test]
fn fraction_rounds_down() {
    let f = FractionalAmount { fraction: n(1), units: n(3) };
    assert_eq!(Some(n(3)), f.to_absolute(n(10)));
    assert_eq!(Ok(n(3)), normalize_amount(FractionOrAmount::Fraction(f), n(10)));
}

#[test]
fn fraction_of_large_balance_uses_full_width() {
    let total = Uint256 { l0: 0, l1: 0, l2: 4, l3: 0 };
    let f = FractionalAmount { fraction: n(3), units: n(2) };
    assert_eq!(Some(Uint256 { l0: 0, l1: 0, l2: 6, l3: 0 }), f.to_absolute(total));
}

#[test]
fn fraction_that_rounds_to_zero_is_refused() {
    let f = FractionalAmount { fraction: n(1), units: n(1000) };
    assert_eq!(Some(n(0)), f.to_absolute(n(100)));
    let r = normalize_amount(FractionOrAmount::Fraction(f), n(100));
    assert_eq!(f, r.unwrap_err().0);
}

#[test]
fn fixed_zero_amount_is_kept() {
    let r = normalize_amount(FractionOrAmount::Amount { amount: n(0) }, n(5));
    assert_eq!(Ok(n(0)), r);
    let r = normalize_amount(FractionOrAmount::Amount { amount: n(700) }, n(5));
    assert_eq!(Ok(n(700)), r);
}

#[test]
fn zero_units_are_refused() {
    let f = FractionalAmount { fraction: n(1), units: n(0) };
    assert_eq!(None, f.to_absolute(n(100)));
    let r = normalize_amount(FractionOrAmount::Fraction(f), n(100));
    assert!(r.is_err());
}

#[test]
fn overflowing_product_is_refused() {
    let f = FractionalAmount { fraction: n(2), units: n(1) };
    assert_eq!(None, f.to_absolute(Uint256::max_value()));
    let r = normalize_amount(FractionOrAmount::Fraction(f), Uint256::max_value());
    assert!(r.is_err());
}

#[test]
fn percent_uses_default_units() {
    assert_eq!(n(100), default_units());
    let f = FractionalAmount::percent(n(25));
    assert_eq!(n(100), f.units);
    assert_eq!(Some(n(10)), f.to_absolute(n(40)));
}

#[test]
fn limbs_round_trip() {
    let v = Uint256::from_limbs([1, 2, 3, 4]);
    assert_eq!([1, 2, 3, 4], v.limbs());
    assert_eq!(4, v.l3);
    assert!(!v.is_zero());
    assert!(Uint256::zero().is_zero());
}
