//! Prices, and the pairs of prices that a change is computed from.

use vstd::prelude::*;

verus! {

/// The bits of positive infinity, the largest pattern of a double that is not a NaN.
pub const INFINITY_BITS: u64 = 0x7ff0_0000_0000_0000;

/// The bits of negative zero.
pub const NEGATIVE_ZERO_BITS: u64 = 0x8000_0000_0000_0000;

/// A price: an IEEE 754 double, held by its bits.
#[derive(Clone, Copy, Debug, PartialEq, Eq, Structural)]
pub struct Price {
    pub bits: u64,
}

impl Price {
    /// The double is greater than zero: its sign bit is clear, and it is neither
    /// zero nor a NaN.
    pub open spec fn positive(self) -> bool {
        0 < self.bits <= INFINITY_BITS
    }

    /// The double equals zero, of either sign.
    pub open spec fn zero(self) -> bool {
        self.bits == 0 || self.bits == NEGATIVE_ZERO_BITS
    }

    pub fn is_positive(&self) -> (r: bool)
        ensures
            r == self.positive(),
    {
        0 < self.bits && self.bits <= INFINITY_BITS
    }

    pub fn is_zero(&self) -> (r: bool)
        ensures
            r == self.zero(),
    {
        self.bits == 0 || self.bits == NEGATIVE_ZERO_BITS
    }
}

/// A price held against an earlier one. Its difference is `current - base`; its
/// percentage is `(current - base) / base * 100`.
#[derive(Clone, Copy, Debug, PartialEq, Eq, Structural)]
pub struct Comparison {
    pub current: Price,
    pub base: Price,
}

/// A positive price is not zero, so a percentage over it divides by no zero.
pub proof fn positive_is_not_zero(p: Price)
    requires
        p.positive(),
    ensures
        !p.zero(),
{
}

/// Of the three fields of a double, the sign bit, the 11 bits of the exponent and
/// the 52 bits of the fraction: a double is zero exactly where its exponent and its
/// fraction are, whatever its sign; and it is positive exactly where its sign bit is
/// clear, it is not zero, and it is no NaN, which has the largest exponent and a
/// fraction.
pub proof fn sign_is_told_by_the_fields(p: Price)
    ensures
        ({
            let sign = p.bits as int / 0x8000_0000_0000_0000;
            let exponent = p.bits as int / 0x10_0000_0000_0000 % 0x800;
            let fraction = p.bits as int % 0x10_0000_0000_0000;
            let nan = exponent == 0x7ff && fraction != 0;
            &&& p.zero() <==> exponent == 0 && fraction == 0
            &&& p.positive() <==> sign == 0 && !(exponent == 0 && fraction == 0) && !nan
        }),
{
}

/// Of a double and the one with the other sign, at most one is positive, both are
/// zero or neither is, and a positive one stays positive where its bits shrink, as
/// long as it does not come to zero.
pub proof fn at_most_one_sign_is_positive(p: Price, opposite: Price, smaller: Price)
    requires
        opposite.bits == p.bits + 0x8000_0000_0000_0000,
        0 < smaller.bits <= p.bits,
    ensures
        !opposite.positive(),
        p.zero() == opposite.zero(),
        p.positive() ==> smaller.positive(),
{
}

} // verus!
