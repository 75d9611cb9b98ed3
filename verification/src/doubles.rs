//! The doubles that integers convert to.

use vstd::prelude::*;
use vstd::arithmetic::power2::pow2;
use vstd::arithmetic::power2::{lemma2_to64, lemma2_to64_rest, lemma_pow2_adds, lemma_pow2_pos};
use vstd::arithmetic::power2::{lemma_pow2_strictly_increases, lemma_pow2_unfold};
use crate::price::{Price, INFINITY_BITS, NEGATIVE_ZERO_BITS};

verus! {

/// Two to the power of 52: one step of a double's exponent, counted in its bits.
pub const EXPONENT_STEP: u64 = 0x0010_0000_0000_0000;

/// What is added to the exponent of a double before it is put into its bits.
pub const EXPONENT_BIAS: u64 = 1023;

/// Up to this size, two to the power of 53, every integer is a double.
pub const EXACT_LIMIT: u64 = 0x0020_0000_0000_0000;

/// The exponent of the largest power of two that is not above a positive number.
pub open spec fn magnitude(n: nat) -> nat
    decreases n,
{
    if n < 2 {
        0
    } else {
        magnitude(n / 2) + 1
    }
}

/// The bits of the double nearest to a number; of two that are equally near, the
/// one whose last bit is clear.
pub open spec fn natural_bits(n: nat) -> nat {
    let e = magnitude(n);
    let front = (EXPONENT_BIAS + e) * EXPONENT_STEP;
    if n == 0 {
        0
    } else if e <= 52 {
        (front + (n - pow2(e)) * pow2((52 - e) as nat)) as nat
    } else {
        let unit = pow2((e - 52) as nat);
        let kept = n / unit;
        let rest = n % unit;
        let up = if 2 * rest > unit || (2 * rest == unit && kept % 2 == 1) {
            1nat
        } else {
            0nat
        };
        (front + (kept - EXPONENT_STEP) + up) as nat
    }
}

/// The bits of the double nearest to an integer.
pub open spec fn nearest_double(n: int) -> u64 {
    if n >= 0 {
        natural_bits(n as nat) as u64
    } else {
        (NEGATIVE_ZERO_BITS + natural_bits((-n) as nat)) as u64
    }
}

/// The double with these bits, which is at least one, equals the number: its
/// significand, scaled by its exponent, is the number.
pub open spec fn spells(bits: u64, n: nat) -> bool {
    let exponent = bits as int / EXPONENT_STEP as int - EXPONENT_BIAS;
    let fraction = bits as int % EXPONENT_STEP as int;
    exponent >= 0 && (EXPONENT_STEP + fraction) * pow2(exponent as nat) == n * EXPONENT_STEP
}

/// A positive number is at least the power of two of its magnitude, and less than
/// the next one.
proof fn magnitude_bounds(n: nat)
    requires
        n > 0,
    ensures
        pow2(magnitude(n)) <= n < pow2(magnitude(n) + 1),
    decreases n,
{
    lemma2_to64();
    if n >= 2 {
        magnitude_bounds(n / 2);
        lemma_pow2_unfold(magnitude(n));
        lemma_pow2_unfold(magnitude(n) + 1);
    }
}

/// The magnitude of a number of 64 bits is below 64, and that of one up to the
/// limit of exactness is below 53, but for the limit itself.
proof fn magnitude_limits(n: nat)
    requires
        0 < n <= u64::MAX,
    ensures
        magnitude(n) < 64,
        n < EXACT_LIMIT ==> magnitude(n) <= 52,
        n == EXACT_LIMIT ==> magnitude(n) == 53,
{
    magnitude_bounds(n);
    lemma2_to64();
    lemma2_to64_rest();
    let e = magnitude(n);
    if e >= 64 {
        if e > 64 {
            lemma_pow2_strictly_increases(64, e);
        }
    }
    if n < EXACT_LIMIT && e > 52 {
        if e > 53 {
            lemma_pow2_strictly_increases(53, e);
        }
    }
    if n == EXACT_LIMIT {
        if e > 53 {
            lemma_pow2_strictly_increases(53, e);
        }
        if e < 53 {
            if e + 1 < 53 {
                lemma_pow2_strictly_increases(e + 1, 53);
            }
        }
    }
}

/// Below the limit of exactness, the fraction of a number's bits fits beside its
/// exponent.
proof fn fraction_fits(n: nat)
    requires
        0 < n,
        magnitude(n) <= 52,
    ensures
        ({
            let e = magnitude(n);
            let fraction = (n - pow2(e)) * pow2((52 - e) as nat);
            &&& 0 <= fraction < EXPONENT_STEP
            &&& fraction * pow2(e) == (n - pow2(e)) * EXPONENT_STEP
            &&& natural_bits(n) == (EXPONENT_BIAS + e) * EXPONENT_STEP + fraction
        }),
{
    let e = magnitude(n);
    let up = pow2((52 - e) as nat);
    let step = pow2(e);
    let over = n - step;
    magnitude_bounds(n);
    lemma_pow2_unfold(e + 1);
    lemma_pow2_adds(e, (52 - e) as nat);
    lemma_pow2_pos(e);
    lemma_pow2_pos((52 - e) as nat);
    lemma2_to64_rest();
    assert(0 <= over * up < step * up) by (nonlinear_arith)
        requires
            0 <= over < step,
            up > 0,
    ;
    assert(over * up * step == over * (step * up)) by (nonlinear_arith);
}

/// The bits of a positive number of 64 bits are those of a finite positive double.
proof fn natural_bits_are_positive(n: nat)
    requires
        0 < n <= u64::MAX,
    ensures
        0 < natural_bits(n) < INFINITY_BITS,
{
    let e = magnitude(n);
    magnitude_limits(n);
    magnitude_bounds(n);
    if e <= 52 {
        fraction_fits(n);
    } else {
        let unit = pow2((e - 52) as nat);
        let kept = n / unit;
        lemma_pow2_pos((e - 52) as nat);
        lemma_pow2_adds((e - 52) as nat, 52);
        lemma_pow2_adds((e - 52) as nat, 53);
        lemma2_to64_rest();
        assert(EXPONENT_STEP <= kept < 2 * EXPONENT_STEP) by (nonlinear_arith)
            requires
                unit > 0,
                kept == n / unit,
                unit * EXPONENT_STEP <= n < unit * (2 * EXPONENT_STEP),
        ;
    }
}

/// An integer converts to a double of its own sign, and to zero only where it is
/// zero.
pub proof fn conversion_keeps_the_sign(n: int)
    requires
        i64::MIN <= n <= u64::MAX,
    ensures
        (Price { bits: nearest_double(n) }).positive() <==> n > 0,
        (Price { bits: nearest_double(n) }).zero() <==> n == 0,
{
    if n > 0 {
        natural_bits_are_positive(n as nat);
    } else if n < 0 {
        natural_bits_are_positive((-n) as nat);
    }
}

/// Up to the limit of exactness, a positive integer converts to the double that
/// equals it, and a negative one to that double with its sign bit set.
pub proof fn conversion_is_exact(n: int)
    requires
        0 < n <= EXACT_LIMIT,
    ensures
        spells(nearest_double(n), n as nat),
        nearest_double(-n) == NEGATIVE_ZERO_BITS + nearest_double(n),
{
    let m = n as nat;
    let e = magnitude(m);
    natural_bits_are_positive(m);
    magnitude_limits(m);
    magnitude_bounds(m);
    lemma2_to64();
    lemma2_to64_rest();
    let step = pow2(e);
    if m < EXACT_LIMIT {
        fraction_fits(m);
        let fraction = (m - step) * pow2((52 - e) as nat);
        let bits = natural_bits(m) as int;
        assert(bits / EXPONENT_STEP as int == EXPONENT_BIAS + e && bits % EXPONENT_STEP as int
            == fraction) by (nonlinear_arith)
            requires
                bits == (EXPONENT_BIAS + e) * EXPONENT_STEP + fraction,
                0 <= fraction < EXPONENT_STEP,
        ;
        assert((EXPONENT_STEP + fraction) * step == EXPONENT_STEP * step + fraction * step)
            by (nonlinear_arith);
        assert(EXPONENT_STEP * step + (m - step) * EXPONENT_STEP == m * EXPONENT_STEP)
            by (nonlinear_arith);
    }
}

} // verus!
