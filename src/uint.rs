use vstd::prelude::*;

verus! {

/// 2^64, the base of one limb.
pub open spec fn limb_base() -> nat {
    0x1_0000_0000_0000_0000
}

/// 2^256: every amount lies below it.
pub open spec fn word_modulus() -> nat {
    limb_base() * limb_base() * limb_base() * limb_base()
}

/// An unsigned 256-bit integer held as four 64-bit limbs, least significant first.
#[derive(Clone, Copy, Debug, PartialEq, Eq, Structural)]
pub struct Uint256 {
    pub l0: u64,
    pub l1: u64,
    pub l2: u64,
    pub l3: u64,
}

impl Uint256 {
    /// The number that the limbs stand for.
    pub open spec fn value(self) -> nat {
        self.l0 as nat + self.l1 as nat * limb_base() + self.l2 as nat * (
        limb_base() * limb_base()) + self.l3 as nat * (limb_base() * limb_base()
            * limb_base())
    }

    pub proof fn lemma_value_bounded(self)
        ensures
            self.value() < word_modulus(),
    {
        let b = limb_base();
        let (x0, x1, x2, x3) = (self.l0 as int, self.l1 as int, self.l2 as int, self.l3 as int);
        assert(x0 + x1 * b + x2 * (b * b) + x3 * (b * b * b) < b * b * b * b) by (nonlinear_arith)
            requires
                0 <= x0 < b,
                0 <= x1 < b,
                0 <= x2 < b,
                0 <= x3 < b,
        {
            assert(x1 * b <= (b - 1) * b);
            assert(x2 * (b * b) <= (b - 1) * (b * b));
            assert(x3 * (b * b * b) <= (b - 1) * (b * b * b));
        }
    }

    pub proof fn lemma_value_zero(self)
        ensures
            (self.value() == 0) == (self.l0 == 0 && self.l1 == 0 && self.l2 == 0 && self.l3 == 0),
    {
        let b = limb_base();
        let (x0, x1, x2, x3) = (self.l0 as int, self.l1 as int, self.l2 as int, self.l3 as int);
        assert((x0 + x1 * b + x2 * (b * b) + x3 * (b * b * b) == 0) == (x0 == 0 && x1 == 0 && x2
            == 0 && x3 == 0)) by (nonlinear_arith)
            requires
                0 <= x0,
                0 <= x1,
                0 <= x2,
                0 <= x3,
                b > 0,
        {
            assert(x1 * b >= 0);
            assert(b * b > 0);
            assert(x2 * (b * b) >= 0);
            assert(b * b * b > 0);
            assert(x3 * (b * b * b) >= 0);
            if x1 > 0 {
                assert(x1 * b >= b);
            }
            if x2 > 0 {
                assert(x2 * (b * b) >= b * b);
            }
            if x3 > 0 {
                assert(x3 * (b * b * b) >= b * b * b);
            }
        }
    }

    /// Two numbers are the same exactly when their limbs are.
    pub proof fn lemma_value_injective(self, other: Uint256)
        requires
            self.value() == other.value(),
        ensures
            self == other,
    {
        let b = limb_base() as int;
        let (x0, x1, x2, x3) = (self.l0 as int, self.l1 as int, self.l2 as int, self.l3 as int);
        let (y0, y1, y2, y3) = (other.l0 as int, other.l1 as int, other.l2 as int, other.l3 as int);
        let hx = x1 + x2 * b + x3 * (b * b);
        let hy = y1 + y2 * b + y3 * (b * b);
        assert(x0 + hx * b == y0 + hy * b) by (nonlinear_arith)
            requires
                x0 + x1 * b + x2 * (b * b) + x3 * (b * b * b) == y0 + y1 * b + y2 * (b * b) + y3 * (
                b * b * b),
                hx == x1 + x2 * b + x3 * (b * b),
                hy == y1 + y2 * b + y3 * (b * b),
        ;
        lemma_digit_split(x0, hx, y0, hy, b);
        let gx = x2 + x3 * b;
        let gy = y2 + y3 * b;
        assert(x1 + gx * b == y1 + gy * b) by (nonlinear_arith)
            requires
                hx == hy,
                hx == x1 + x2 * b + x3 * (b * b),
                hy == y1 + y2 * b + y3 * (b * b),
                gx == x2 + x3 * b,
                gy == y2 + y3 * b,
        ;
        lemma_digit_split(x1, gx, y1, gy, b);
        lemma_digit_split(x2, x3, y2, y3, b);
    }

    pub fn from_u64(v: u64) -> (r: Uint256)
        ensures
            r.value() == v,
    {
        Uint256 { l0: v, l1: 0, l2: 0, l3: 0 }
    }

    pub fn zero() -> (r: Uint256)
        ensures
            r.value() == 0,
    {
        Uint256 { l0: 0, l1: 0, l2: 0, l3: 0 }
    }

    pub fn max_value() -> (r: Uint256)
        ensures
            r.value() == word_modulus() - 1,
    {
        let m = u64::MAX;
        let r = Uint256 { l0: m, l1: m, l2: m, l3: m };
        r
    }

    /// The limbs, least significant first.
    pub fn limbs(&self) -> (r: [u64; 4])
        ensures
            r@ == seq![self.l0, self.l1, self.l2, self.l3],
    {
        let r = [self.l0, self.l1, self.l2, self.l3];
        assert(r@ =~= seq![self.l0, self.l1, self.l2, self.l3]);
        r
    }

    /// The number whose limbs, least significant first, are given.
    pub fn from_limbs(limbs: [u64; 4]) -> (r: Uint256)
        ensures
            limbs@ == seq![r.l0, r.l1, r.l2, r.l3],
    {
        let r = Uint256 { l0: limbs[0], l1: limbs[1], l2: limbs[2], l3: limbs[3] };
        assert(limbs@ =~= seq![r.l0, r.l1, r.l2, r.l3]);
        r
    }

    pub fn is_zero(&self) -> (r: bool)
        ensures
            r == (self.value() == 0),
    {
        proof {
            self.lemma_value_zero();
        }
        self.l0 == 0 && self.l1 == 0 && self.l2 == 0 && self.l3 == 0
    }
}

proof fn lemma_digit_split(x: int, hx: int, y: int, hy: int, b: int)
    requires
        0 <= x < b,
        0 <= y < b,
        x + hx * b == y + hy * b,
    ensures
        x == y,
        hx == hy,
{
    assert(x == y && hx == hy) by (nonlinear_arith)
        requires
            0 <= x < b,
            0 <= y < b,
            x + hx * b == y + hy * b,
    {
        assert((hx - hy) * b == y - x);
        if hx > hy {
            assert((hx - hy) * b >= b);
        } else if hx < hy {
            assert((hy - hx) * b >= b);
        }
    }
}

/// Relies on ruint's `Uint::checked_mul`: the product, or `None` when it overflows 256 bits.
#[verifier::external_body]
pub(crate) fn checked_mul(a: Uint256, b: Uint256) -> (r: Option<Uint256>)
    ensures
        match r {
            Some(v) => a.value() * b.value() < word_modulus() && v.value() == a.value()
                * b.value(),
            None => a.value() * b.value() >= word_modulus(),
        },
{
    let x = alloy::primitives::U256::from_limbs(a.limbs());
    let y = alloy::primitives::U256::from_limbs(b.limbs());
    x.checked_mul(y).map(|v| Uint256::from_limbs(v.into_limbs()))
}

/// Relies on ruint's `Uint::checked_div`: the floor of the quotient, or `None` for a zero divisor.
#[verifier::external_body]
pub(crate) fn checked_div(a: Uint256, b: Uint256) -> (r: Option<Uint256>)
    ensures
        match r {
            Some(v) => b.value() != 0 && v.value() == a.value() / b.value(),
            None => b.value() == 0,
        },
{
    let x = alloy::primitives::U256::from_limbs(a.limbs());
    let y = alloy::primitives::U256::from_limbs(b.limbs());
    x.checked_div(y).map(|v| Uint256::from_limbs(v.into_limbs()))
}

/// Relies on ruint's `Uint::checked_add`: the sum, or `None` when it overflows 256 bits.
#[verifier::external_body]
pub(crate) fn checked_add(a: Uint256, b: Uint256) -> (r: Option<Uint256>)
    ensures
        match r {
            Some(v) => a.value() + b.value() < word_modulus() && v.value() == a.value()
                + b.value(),
            None => a.value() + b.value() >= word_modulus(),
        },
{
    let x = alloy::primitives::U256::from_limbs(a.limbs());
    let y = alloy::primitives::U256::from_limbs(b.limbs());
    x.checked_add(y).map(|v| Uint256::from_limbs(v.into_limbs()))
}

/// Relies on ruint's `PartialOrd for Uint`, which orders by numeric value.
#[verifier::external_body]
pub(crate) fn greater_than(a: &Uint256, b: &Uint256) -> (r: bool)
    ensures
        r == (a.value() > b.value()),
{
    alloy::primitives::U256::from_limbs(a.limbs()) > alloy::primitives::U256::from_limbs(b.limbs())
}

} // verus!
