use vstd::prelude::*;

use crate::uint::{checked_div, checked_mul, word_modulus, Uint256};

verus! {

/// `fraction / units` of some reference balance.
#[derive(Clone, Copy, Debug, PartialEq, Eq, Structural)]
pub struct FractionalAmount {
    pub fraction: Uint256,
    pub units: Uint256,
}

/// Either a share of a reference balance or a fixed amount.
#[derive(Clone, Copy, Debug, PartialEq, Eq, Structural)]
pub enum FractionOrAmount {
    Fraction(FractionalAmount),
    Amount { amount: Uint256 },
}

/// `floor(total * fraction / units)`, absent when the product leaves 256 bits or `units`
/// is zero.
pub open spec fn absolute_of(f: FractionalAmount, total: nat) -> Option<nat> {
    if total * f.fraction.value() >= word_modulus() || f.units.value() == 0 {
        None
    } else {
        Some(total * f.fraction.value() / f.units.value())
    }
}

/// The amount that a specification stands for against a reference balance. A fixed amount
/// is taken as it is, zero included; a share is refused where it cannot be computed or
/// comes to zero.
pub open spec fn resolve(spec: FractionOrAmount, total: nat) -> Option<nat> {
    match spec {
        FractionOrAmount::Amount { amount } => Some(amount.value()),
        FractionOrAmount::Fraction(f) => match absolute_of(f, total) {
            Some(v) => if v == 0 {
                None
            } else {
                Some(v)
            },
            None => None,
        },
    }
}

/// The units that a share is counted in when none are given: percent.
pub fn default_units() -> (r: Uint256)
    ensures
        r.value() == 100,
{
    Uint256::from_u64(100)
}

impl FractionalAmount {
    /// A share counted in the default units.
    pub fn percent(fraction: Uint256) -> (r: FractionalAmount)
        ensures
            r.fraction == fraction,
            r.units.value() == 100,
    {
        FractionalAmount { fraction, units: default_units() }
    }

    /// Calculates `fraction * total / units`.
    pub fn to_absolute(self, total: Uint256) -> (r: Option<Uint256>)
        ensures
            match r {
                Some(v) => absolute_of(self, total.value()) == Some(v.value()),
                None => absolute_of(self, total.value()) is None,
            },
    {
        match checked_mul(total, self.fraction) {
            Some(product) => checked_div(product, self.units),
            None => None,
        }
    }
}

/// The error of a share that cannot be resolved against its balance.
#[derive(Clone, Copy, Debug, PartialEq, Eq, Structural)]
pub struct InvalidFractionalAmountError(pub FractionalAmount);

/// Resolves `amount` against `available_balance`.
pub fn normalize_amount(amount: FractionOrAmount, available_balance: Uint256) -> (r: Result<
    Uint256,
    InvalidFractionalAmountError,
>)
    ensures
        match r {
            Ok(v) => resolve(amount, available_balance.value()) == Some(v.value()),
            Err(e) => resolve(amount, available_balance.value()) is None && amount
                == FractionOrAmount::Fraction(e.0),
        },
{
    match amount {
        FractionOrAmount::Amount { amount } => Ok(amount),
        FractionOrAmount::Fraction(f) => match f.to_absolute(available_balance) {
            Some(a) => {
                if a.is_zero() {
                    Err(InvalidFractionalAmountError(f))
                } else {
                    Ok(a)
                }
            },
            None => Err(InvalidFractionalAmountError(f)),
        },
    }
}

/// A share with nonzero units, whose product with the total fits in 256 bits, resolves to
/// `floor(fraction * total / units)`, and is refused exactly when that floor is zero.
pub proof fn lemma_fraction_resolves_to_floor(f: FractionalAmount, total: Uint256)
    requires
        f.units.value() > 0,
        total.value() * f.fraction.value() < word_modulus(),
    ensures
        ({
            let floor = total.value() * f.fraction.value() / f.units.value();
            &&& floor == 0 ==> resolve(FractionOrAmount::Fraction(f), total.value()) is None
            &&& floor != 0 ==> resolve(FractionOrAmount::Fraction(f), total.value()) == Some(floor)
        }),
{
}

/// A fixed amount resolves to itself against any balance, zero included.
pub proof fn lemma_amount_resolves_to_itself(amount: Uint256, total: Uint256)
    ensures
        resolve(FractionOrAmount::Amount { amount }, total.value()) == Some(amount.value()),
{
}

/// A share counted in zero units never resolves.
pub proof fn lemma_zero_units_never_resolve(f: FractionalAmount, total: Uint256)
    requires
        f.units.value() == 0,
    ensures
        resolve(FractionOrAmount::Fraction(f), total.value()) is None,
{
}

} // verus!
