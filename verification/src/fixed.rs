//! Fixed-point scalars: an `i64` that counts millionths of a unit.
//!
//! Every operation rounds toward zero and saturates at the ends of the `i64`
//! range, so each is a total function with an exact result.

use vstd::arithmetic::div_mod::{lemma_fundamental_div_mod, lemma_mod_bound};
use vstd::prelude::*;

verus! {

/// The raw value of the number one.
pub const ONE: i64 = 1_000_000;

/// The nearest value of the `i64` range.
pub open spec fn saturate(v: int) -> int {
    if v < i64::MIN {
        i64::MIN as int
    } else if v > i64::MAX {
        i64::MAX as int
    } else {
        v
    }
}

/// The magnitude of an integer.
pub open spec fn magnitude(v: int) -> nat {
    if v < 0 {
        (-v) as nat
    } else {
        v as nat
    }
}

/// The quotient `n / d`, rounded toward zero.
pub open spec fn div_toward_zero(n: int, d: int) -> int
    recommends
        d > 0,
{
    if n >= 0 {
        n / d
    } else {
        -((-n) / d)
    }
}

/// The fixed-point product of two raw values.
pub open spec fn product(a: int, b: int) -> int {
    saturate(div_toward_zero(a * b, ONE as int))
}

/// The raw value `v * num / den`, rounded toward zero and saturated.
pub open spec fn ratio(v: int, num: int, den: int) -> int
    recommends
        den > 0,
{
    saturate(div_toward_zero(v * num, den))
}

/// The sum of two raw values, saturated.
pub fn saturating_sum(a: i64, b: i64) -> (r: i64)
    ensures
        r == saturate(a + b),
{
    let wide: i128 = a as i128 + b as i128;
    narrow(wide)
}

/// The difference of two raw values, saturated.
pub fn saturating_difference(a: i64, b: i64) -> (r: i64)
    ensures
        r == saturate(a - b),
{
    let wide: i128 = a as i128 - b as i128;
    narrow(wide)
}

/// Brings a wide value into the `i64` range.
pub fn narrow(wide: i128) -> (r: i64)
    ensures
        r == saturate(wide as int),
{
    if wide < i64::MIN as i128 {
        i64::MIN
    } else if wide > i64::MAX as i128 {
        i64::MAX
    } else {
        wide as i64
    }
}

/// The magnitude of a raw value, widened so that `i64::MIN` has one.
pub fn magnitude_of(v: i64) -> (m: u64)
    ensures
        m == magnitude(v as int),
{
    if v < 0 {
        let wide: i128 = -(v as i128);
        wide as u64
    } else {
        v as u64
    }
}

/// The quotient of a magnitude by a positive divisor, with the sign put back
/// and the result saturated.
fn signed_quotient(negative: bool, numerator: u128, divisor: u128) -> (r: i64)
    requires
        divisor > 0,
    ensures
        r == saturate(
            if negative {
                -(numerator as int / divisor as int)
            } else {
                numerator as int / divisor as int
            },
        ),
{
    let q: u128 = numerator / divisor;
    if negative {
        if q > 0x8000_0000_0000_0000u128 {
            i64::MIN
        } else {
            let wide: i128 = -(q as i128);
            wide as i64
        }
    } else {
        if q > 0x7fff_ffff_ffff_ffffu128 {
            i64::MAX
        } else {
            q as i64
        }
    }
}

/// Half of a raw value, rounded toward zero.
pub fn half(v: i64) -> (r: i64)
    ensures
        r == div_toward_zero(v as int, 2),
{
    let m: u64 = magnitude_of(v);
    let q: u64 = m / 2;
    if v < 0 {
        -(q as i64)
    } else {
        q as i64
    }
}

/// The magnitude of a product is the product of the magnitudes.
pub proof fn lemma_magnitude_of_product(a: int, b: int)
    ensures
        magnitude(a * b) == magnitude(a) * magnitude(b),
        a * b < 0 <==> (a < 0 && b > 0) || (a > 0 && b < 0),
{
    assert(magnitude(a * b) == magnitude(a) * magnitude(b) && (a * b < 0 <==> (a < 0 && b > 0) || (
    a > 0 && b < 0))) by (nonlinear_arith)
        requires
            magnitude(a) == if a < 0 {
                -a
            } else {
                a
            },
            magnitude(b) == if b < 0 {
                -b
            } else {
                b
            },
            magnitude(a * b) == if a * b < 0 {
                -(a * b)
            } else {
                a * b
            },
    ;
}

/// The fixed-point product of two raw values: `a * b / ONE`, rounded toward
/// zero and saturated.
pub fn scaled_product(a: i64, b: i64) -> (r: i64)
    ensures
        r == product(a as int, b as int),
{
    let ma: u64 = magnitude_of(a);
    let mb: u64 = magnitude_of(b);
    let negative: bool = (a < 0 && b > 0) || (a > 0 && b < 0);
    proof {
        lemma_magnitude_of_product(a as int, b as int);
        assert(ma * mb <= 0x8000_0000_0000_0000 * 0x8000_0000_0000_0000) by (nonlinear_arith)
            requires
                ma <= 0x8000_0000_0000_0000,
                mb <= 0x8000_0000_0000_0000,
        ;
    }
    let numerator: u128 = ma as u128 * mb as u128;
    signed_quotient(negative, numerator, ONE as u128)
}

/// The raw value `v * num / den`, rounded toward zero and saturated.
pub fn scaled_ratio(v: i64, num: u64, den: u64) -> (r: i64)
    requires
        den > 0,
    ensures
        r == ratio(v as int, num as int, den as int),
{
    let mv: u64 = magnitude_of(v);
    proof {
        lemma_magnitude_of_product(v as int, num as int);
        assert(mv * num <= 0x8000_0000_0000_0000 * 0xffff_ffff_ffff_ffff) by (nonlinear_arith)
            requires
                mv <= 0x8000_0000_0000_0000,
                num <= 0xffff_ffff_ffff_ffff,
        ;
    }
    let numerator: u128 = mv as u128 * num as u128;
    signed_quotient(v < 0 && num > 0, numerator, den as u128)
}

/// A quotient of natural numbers, multiplied back, misses the dividend by
/// less than the divisor.
pub proof fn lemma_quotient_brackets(n: nat, d: nat)
    requires
        d > 0,
    ensures
        (n / d) * d <= n < (n / d) * d + d,
        n / d >= 0,
{
    lemma_fundamental_div_mod(n as int, d as int);
    lemma_mod_bound(n as int, d as int);
    assert(d * (n / d) == (n / d) * d) by (nonlinear_arith);
    assert(n / d >= 0) by (nonlinear_arith)
        requires
            (n / d) * d + d > n,
            n >= 0,
            d > 0,
    ;
}

/// Rounding toward zero divides the magnitude and keeps the sign.
pub proof fn lemma_div_toward_zero_by_magnitude(v: int, num: nat, den: nat)
    requires
        den > 0,
    ensures
        div_toward_zero(v * num, den as int) == if v < 0 {
            -((magnitude(v) * num) / den)
        } else {
            ((magnitude(v) * num) / den) as int
        },
        magnitude(div_toward_zero(v * num, den as int)) == (magnitude(v) * num) / den,
{
    lemma_magnitude_of_product(v, num as int);
    lemma_quotient_brackets(magnitude(v) * num, den);
    if v * num >= 0 && v < 0 {
        assert(num == 0) by (nonlinear_arith)
            requires
                v * num >= 0,
                v < 0,
                num >= 0,
        ;
        assert(magnitude(v) * num == 0) by (nonlinear_arith)
            requires
                num == 0,
        ;
    }
}

/// The fixed-point product with zero is zero.
pub proof fn lemma_product_of_zero(k: int)
    ensures
        product(0, k) == 0,
        product(k, 0) == 0,
{
    assert(0 * k == 0 && k * 0 == 0) by (nonlinear_arith);
}

/// The product with one is the value itself.
pub proof fn lemma_product_with_one(v: i64)
    ensures
        product(v as int, ONE as int) == v,
{
    let m = magnitude(v as int);
    lemma_div_toward_zero_by_magnitude(v as int, ONE as nat, ONE as nat);
    lemma_quotient_brackets(m * (ONE as nat), ONE as nat);
    let q = (m * (ONE as nat)) / (ONE as nat);
    assert(q == m) by (nonlinear_arith)
        requires
            q * ONE <= m * ONE < q * ONE + ONE,
    ;
}

/// The product with a factor below one is smaller in magnitude, strictly so
/// unless it is zero, and keeps the sign.
pub proof fn lemma_product_with_fraction(v: i64, factor: i64)
    requires
        0 <= factor < ONE,
    ensures
        magnitude(product(v as int, factor as int)) <= magnitude(v as int),
        v != 0 ==> magnitude(product(v as int, factor as int)) < magnitude(v as int),
        v >= 0 ==> product(v as int, factor as int) >= 0,
        v <= 0 ==> product(v as int, factor as int) <= 0,
{
    let m = magnitude(v as int);
    let q = (m * (factor as nat)) / (ONE as nat);
    lemma_div_toward_zero_by_magnitude(v as int, factor as nat, ONE as nat);
    lemma_quotient_brackets(m * (factor as nat), ONE as nat);
    assert(q <= m && (m > 0 ==> q < m)) by (nonlinear_arith)
        requires
            q * ONE <= m * factor,
            0 <= factor < ONE,
            m >= 0,
            q >= 0,
    ;
}

} // verus!
