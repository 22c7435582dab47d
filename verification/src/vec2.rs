//! Two-dimensional vectors of fixed-point components.

use crate::fixed::{
    div_toward_zero, lemma_div_toward_zero_by_magnitude, lemma_quotient_brackets, magnitude,
    magnitude_of, product, ratio, saturate, saturating_difference, saturating_sum,
    scaled_product, scaled_ratio, ONE,
};
use crate::sqrt::{
    ceil_sqrt, ceil_sqrt_of, is_ceil_sqrt, lemma_ceil_sqrt, lemma_square_monotonic,
};
use vstd::prelude::*;

verus! {

/// The magnitude, `2^61`, that the larger component of a vector is brought
/// to before the vector's length is taken for a division.
pub const AMPLE: i64 = 0x2000_0000_0000_0000;

/// A vector in the plane; each component counts millionths of a unit.
#[derive(Clone, Copy, Debug, PartialEq, Eq, Structural)]
pub struct Vec2 {
    pub x: i64,
    pub y: i64,
}

/// The power of two that brings the magnitude `m` to `AMPLE` or beyond by
/// doubling; one for zero and for a magnitude that is there already.
pub open spec fn amplifier(m: nat) -> nat
    decreases 2 * AMPLE - m,
{
    if 0 < m < AMPLE {
        2 * amplifier(2 * m)
    } else {
        1
    }
}

/// The quotient `|component| * target / len`, rounded down.
pub open spec fn quotient(component: i64, target: nat, len: nat) -> nat {
    (magnitude(component as int) * target) / len
}

impl Vec2 {
    /// The zero vector.
    pub open spec fn spec_zero() -> Vec2 {
        Vec2 { x: 0, y: 0 }
    }

    /// The magnitude of the larger component.
    pub open spec fn spec_larger_magnitude(self) -> nat {
        if magnitude(self.x as int) >= magnitude(self.y as int) {
            magnitude(self.x as int)
        } else {
            magnitude(self.y as int)
        }
    }

    /// The vector scaled up by a power of two, exactly, until its larger
    /// component is at least `AMPLE`. It has the direction of `self`; the
    /// zero vector and a vector that is large already stay as they are.
    pub open spec fn spec_amplified(self) -> Vec2 {
        Vec2 {
            x: (self.x * amplifier(self.spec_larger_magnitude())) as i64,
            y: (self.y * amplifier(self.spec_larger_magnitude())) as i64,
        }
    }

    /// The squared length, in squared raw steps.
    pub open spec fn spec_length_squared(self) -> nat {
        (self.x * self.x + self.y * self.y) as nat
    }

    /// The length in raw steps, rounded up.
    pub open spec fn spec_length(self) -> nat {
        ceil_sqrt(self.spec_length_squared())
    }

    /// Each component multiplied by `target` and divided by the length
    /// rounded up, rounded toward zero.
    pub open spec fn spec_rescaled(self, target: nat) -> Vec2 {
        Vec2 {
            x: ratio(self.x as int, target as int, self.spec_length() as int) as i64,
            y: ratio(self.y as int, target as int, self.spec_length() as int) as i64,
        }
    }

    /// The vector of the same direction whose length is `target`; the zero
    /// vector stays zero. The vector is amplified first, so that rounding
    /// its length up loses nothing that matters, then rescaled.
    pub open spec fn spec_with_length(self, target: nat) -> Vec2 {
        if self == Vec2::spec_zero() {
            self
        } else {
            self.spec_amplified().spec_rescaled(target)
        }
    }

    /// The unit vector of the same direction, or zero for the zero vector.
    pub open spec fn spec_normalize_or_zero(self) -> Vec2 {
        self.spec_with_length(ONE as nat)
    }

    /// Each component multiplied by the fixed-point factor `k`.
    pub open spec fn spec_scaled(self, k: i64) -> Vec2 {
        Vec2 { x: product(self.x as int, k as int) as i64, y: product(self.y as int, k as int) as i64 }
    }

    /// The cross product with `other`: zero exactly when the two are
    /// parallel.
    pub open spec fn spec_cross(self, other: Vec2) -> int {
        self.x * other.y - self.y * other.x
    }

    /// The component-wise saturated sum.
    pub open spec fn spec_plus(self, other: Vec2) -> Vec2 {
        Vec2 { x: saturate(self.x + other.x) as i64, y: saturate(self.y + other.y) as i64 }
    }

    /// The component-wise saturated difference.
    pub open spec fn spec_minus(self, other: Vec2) -> Vec2 {
        Vec2 { x: saturate(self.x - other.x) as i64, y: saturate(self.y - other.y) as i64 }
    }

    /// Whether the vector is `target` long up to rounding: it is not longer,
    /// and with two raw steps added to the magnitude of each component it
    /// is longer.
    pub open spec fn spec_has_length(self, target: nat) -> bool {
        &&& self.spec_length_squared() <= target * target
        &&& (magnitude(self.x as int) + 2) * (magnitude(self.x as int) + 2) + (magnitude(
            self.y as int,
        ) + 2) * (magnitude(self.y as int) + 2) > target * target
    }

    /// Whether `other` points where `self` does up to rounding: no
    /// component has another sign, and `other` lies less than one raw step
    /// off the ray of `self`, the cross product of the two being smaller
    /// than the larger component of `self`. Only zero points along zero.
    pub open spec fn spec_points_along(self, other: Vec2) -> bool {
        &&& self.x >= 0 ==> other.x >= 0
        &&& self.x <= 0 ==> other.x <= 0
        &&& self.y >= 0 ==> other.y >= 0
        &&& self.y <= 0 ==> other.y <= 0
        &&& magnitude(self.spec_cross(other)) < self.spec_larger_magnitude() || (self
            == Vec2::spec_zero() && other == Vec2::spec_zero())
    }

    /// The vector with the given components.
    pub fn new(x: i64, y: i64) -> (v: Vec2)
        ensures
            v == (Vec2 { x, y }),
    {
        Vec2 { x, y }
    }

    /// The zero vector.
    #[verifier::when_used_as_spec(spec_zero)]
    pub fn zero() -> (v: Vec2)
        ensures
            v == Vec2::spec_zero(),
    {
        Vec2 { x: 0, y: 0 }
    }

    /// The magnitude of the larger component.
    pub fn larger_magnitude(self) -> (m: u64)
        ensures
            m == self.spec_larger_magnitude(),
    {
        let mx: u64 = magnitude_of(self.x);
        let my: u64 = magnitude_of(self.y);
        if mx >= my {
            mx
        } else {
            my
        }
    }

    /// The vector doubled, exactly, until its larger component is at least
    /// `AMPLE`; the zero vector and a vector that is large already stay as
    /// they are.
    pub fn amplified(self) -> (v: Vec2)
        ensures
            v == self.spec_amplified(),
    {
        let mut v: Vec2 = self;
        let mut m: u64 = self.larger_magnitude();
        while 0 < m && m < AMPLE as u64
            invariant
                m == v.spec_larger_magnitude(),
                v.spec_amplified() == self.spec_amplified(),
            decreases 2 * AMPLE - m,
        {
            proof {
                lemma_amplified_of_double(v);
            }
            v = Vec2 { x: v.x * 2, y: v.y * 2 };
            m = m * 2;
        }
        proof {
            lemma_amplifier(m as nat);
            assert(v.x * 1 == v.x && v.y * 1 == v.y);
        }
        v
    }

    /// The squared length, exact.
    pub fn length_squared(self) -> (n: u128)
        ensures
            n == self.spec_length_squared(),
    {
        let mx: u64 = magnitude_of(self.x);
        let my: u64 = magnitude_of(self.y);
        proof {
            lemma_square_of_magnitude(self.x as int);
            lemma_square_of_magnitude(self.y as int);
            lemma_square_monotonic(mx as nat, 0x8000_0000_0000_0000);
            lemma_square_monotonic(my as nat, 0x8000_0000_0000_0000);
        }
        (mx as u128) * (mx as u128) + (my as u128) * (my as u128)
    }

    /// The length, rounded up to the next raw step.
    pub fn length(self) -> (len: u64)
        ensures
            len == self.spec_length(),
    {
        let n: u128 = self.length_squared();
        let len: u128 = ceil_sqrt_of(n);
        proof {
            self.lemma_length_bounds();
        }
        len as u64
    }

    /// The vector of the same direction and of length `target`; the zero
    /// vector stays zero.
    ///
    /// The result points along `self` and is never longer than `target`.
    /// For a target of at most `AMPLE` it has that length up to rounding,
    /// whatever the length of `self`.
    pub fn with_length(self, target: u64) -> (v: Vec2)
        ensures
            v == self.spec_with_length(target as nat),
            target <= i64::MAX ==> v.spec_length_squared() <= target * target,
            target <= i64::MAX ==> self.spec_points_along(v),
            target <= AMPLE && self != Vec2::spec_zero() ==> v.spec_has_length(target as nat),
    {
        if self.x == 0 && self.y == 0 {
            proof {
                self.lemma_length_bounds();
                assert(target * target >= 0) by (nonlinear_arith);
                assert(self.x * self.y - self.y * self.x == 0) by (nonlinear_arith);
            }
            self
        } else {
            let ample: Vec2 = self.amplified();
            let len: u64 = ample.length();
            proof {
                self.lemma_amplified();
                ample.lemma_length_bounds();
                if target <= i64::MAX {
                    self.lemma_with_length(target as nat);
                }
            }
            Vec2 { x: scaled_ratio(ample.x, target, len), y: scaled_ratio(ample.y, target, len) }
        }
    }

    /// The unit vector of the same direction, or zero for the zero vector.
    ///
    /// Every vector but zero gives a vector that points along it and is one
    /// unit long up to rounding, whatever its own length: a short vector is
    /// scaled up exactly before it is divided by its length.
    pub fn normalize_or_zero(self) -> (v: Vec2)
        ensures
            v == self.spec_normalize_or_zero(),
            self.spec_points_along(v),
            self != Vec2::spec_zero() ==> v.spec_has_length(ONE as nat),
            self == Vec2::spec_zero() <==> v == Vec2::spec_zero(),
    {
        proof {
            self.lemma_normalized_is_not_zero();
        }
        self.with_length(ONE as u64)
    }

    /// Each component multiplied by the fixed-point factor `k`.
    pub fn scaled(self, k: i64) -> (v: Vec2)
        ensures
            v == self.spec_scaled(k),
    {
        Vec2 { x: scaled_product(self.x, k), y: scaled_product(self.y, k) }
    }

    /// The component-wise sum, saturated.
    pub fn plus(self, other: Vec2) -> (v: Vec2)
        ensures
            v == self.spec_plus(other),
    {
        Vec2 { x: saturating_sum(self.x, other.x), y: saturating_sum(self.y, other.y) }
    }

    /// The component-wise difference, saturated.
    pub fn minus(self, other: Vec2) -> (v: Vec2)
        ensures
            v == self.spec_minus(other),
    {
        Vec2 {
            x: saturating_difference(self.x, other.x),
            y: saturating_difference(self.y, other.y),
        }
    }

    /// The length is zero exactly for the zero vector, is at least the
    /// magnitude of each component, fits in a `u64`, and is the least
    /// number whose square reaches the squared length.
    pub proof fn lemma_length_bounds(self)
        ensures
            self.spec_length() == 0 <==> self == Vec2::spec_zero(),
            self.spec_larger_magnitude() <= self.spec_length(),
            self.spec_length() <= u64::MAX,
            self.spec_length() * self.spec_length() >= self.spec_length_squared(),
            self.spec_length() > 0 ==> (self.spec_length() - 1) * (self.spec_length() - 1)
                < self.spec_length_squared(),
            self.spec_length_squared() == magnitude(self.x as int) * magnitude(self.x as int)
                + magnitude(self.y as int) * magnitude(self.y as int),
    {
        let n = self.spec_length_squared();
        let len = self.spec_length();
        let mx = magnitude(self.x as int);
        let my = magnitude(self.y as int);
        lemma_ceil_sqrt(n);
        lemma_square_of_magnitude(self.x as int);
        lemma_square_of_magnitude(self.y as int);
        assert(mx * mx >= 0 && my * my >= 0) by (nonlinear_arith);
        if self.x != 0 {
            assert(mx * mx > 0) by (nonlinear_arith)
                requires
                    mx > 0,
            ;
        }
        if self.y != 0 {
            assert(my * my > 0) by (nonlinear_arith)
                requires
                    my > 0,
            ;
        }
        if len < mx {
            lemma_square_monotonic(len + 1, mx);
            assert((len + 1) * (len + 1) > len * len) by (nonlinear_arith);
        }
        if len < my {
            lemma_square_monotonic(len + 1, my);
            assert((len + 1) * (len + 1) > len * len) by (nonlinear_arith);
        }
        if len > u64::MAX {
            lemma_square_monotonic(mx, 0x8000_0000_0000_0000);
            lemma_square_monotonic(my, 0x8000_0000_0000_0000);
            lemma_square_monotonic(0xffff_ffff_ffff_ffff, (len - 1) as nat);
            assert(0xffff_ffff_ffff_ffffnat * 0xffff_ffff_ffff_ffffnat >= 2
                * 0x8000_0000_0000_0000nat * 0x8000_0000_0000_0000nat) by (nonlinear_arith);
        }
    }

    /// The amplified vector is the vector times its amplifier, component by
    /// component; but for zero, its larger component is at least `AMPLE`.
    pub proof fn lemma_amplified(self)
        ensures
            self.spec_amplified().x == self.x * amplifier(self.spec_larger_magnitude()),
            self.spec_amplified().y == self.y * amplifier(self.spec_larger_magnitude()),
            magnitude(self.spec_amplified().x as int) == magnitude(self.x as int) * amplifier(
                self.spec_larger_magnitude(),
            ),
            magnitude(self.spec_amplified().y as int) == magnitude(self.y as int) * amplifier(
                self.spec_larger_magnitude(),
            ),
            self.spec_amplified().spec_larger_magnitude() == self.spec_larger_magnitude()
                * amplifier(self.spec_larger_magnitude()),
            self != Vec2::spec_zero() ==> self.spec_amplified().spec_larger_magnitude() >= AMPLE,
            self == Vec2::spec_zero() <==> self.spec_amplified() == Vec2::spec_zero(),
            amplifier(self.spec_larger_magnitude()) >= 1,
            self.x >= 0 <==> self.spec_amplified().x >= 0,
            self.x <= 0 <==> self.spec_amplified().x <= 0,
            self.y >= 0 <==> self.spec_amplified().y >= 0,
            self.y <= 0 <==> self.spec_amplified().y <= 0,
    {
        let m = self.spec_larger_magnitude();
        let f = amplifier(m);
        let a = magnitude(self.x as int);
        let b = magnitude(self.y as int);
        let x = self.x as int;
        let y = self.y as int;
        lemma_amplifier(m);
        assert(a * f <= m * f && b * f <= m * f && (a > 0 ==> a * f > 0) && (b > 0 ==> b * f > 0))
            by (nonlinear_arith)
            requires
                a <= m,
                b <= m,
                f >= 1,
        ;
        assert((x >= 0 ==> x * f == a * f) && (x <= 0 ==> x * f == -(a * f)) && (y >= 0 ==> y * f
            == b * f) && (y <= 0 ==> y * f == -(b * f))) by (nonlinear_arith)
            requires
                x >= 0 ==> a == x,
                x <= 0 ==> a == -x,
                y >= 0 ==> b == y,
                y <= 0 ==> b == -y,
        ;
        if m >= AMPLE {
            assert(x * 1 == x && y * 1 == y && a * 1 == a && b * 1 == b && m * 1 == m);
        }
    }

    /// The quotients that rescaling computes: each component of
    /// `self.spec_rescaled(target)` is the quotient of that component,
    /// with its sign, and the quotient times the length misses the
    /// component times `target` by less than the length.
    pub proof fn lemma_rescaled(self, target: nat)
        requires
            self != Vec2::spec_zero(),
        ensures
            self.spec_length() > 0,
            div_toward_zero(self.x * target, self.spec_length() as int) == if self.x < 0 {
                -quotient(self.x, target, self.spec_length())
            } else {
                quotient(self.x, target, self.spec_length()) as int
            },
            div_toward_zero(self.y * target, self.spec_length() as int) == if self.y < 0 {
                -quotient(self.y, target, self.spec_length())
            } else {
                quotient(self.y, target, self.spec_length()) as int
            },
            quotient(self.x, target, self.spec_length()) * self.spec_length() <= magnitude(
                self.x as int,
            ) * target < quotient(self.x, target, self.spec_length()) * self.spec_length()
                + self.spec_length(),
            quotient(self.y, target, self.spec_length()) * self.spec_length() <= magnitude(
                self.y as int,
            ) * target < quotient(self.y, target, self.spec_length()) * self.spec_length()
                + self.spec_length(),
            quotient(self.x, target, self.spec_length()) <= target,
            quotient(self.y, target, self.spec_length()) <= target,
            quotient(self.x, target, self.spec_length()) * quotient(
                self.x,
                target,
                self.spec_length(),
            ) + quotient(self.y, target, self.spec_length()) * quotient(
                self.y,
                target,
                self.spec_length(),
            ) <= target * target,
            target <= i64::MAX ==> {
                &&& magnitude(self.spec_rescaled(target).x as int) == quotient(
                    self.x,
                    target,
                    self.spec_length(),
                )
                &&& magnitude(self.spec_rescaled(target).y as int) == quotient(
                    self.y,
                    target,
                    self.spec_length(),
                )
                &&& self.x >= 0 ==> self.spec_rescaled(target).x >= 0
                &&& self.x <= 0 ==> self.spec_rescaled(target).x <= 0
                &&& self.y >= 0 ==> self.spec_rescaled(target).y >= 0
                &&& self.y <= 0 ==> self.spec_rescaled(target).y <= 0
            },
    {
        let s = self.spec_length();
        let a = magnitude(self.x as int);
        let b = magnitude(self.y as int);
        let p = quotient(self.x, target, s);
        let q = quotient(self.y, target, s);
        self.lemma_length_bounds();
        lemma_div_toward_zero_by_magnitude(self.x as int, target, s);
        lemma_div_toward_zero_by_magnitude(self.y as int, target, s);
        lemma_quotient_brackets(a * target, s);
        lemma_quotient_brackets(b * target, s);
        lemma_quotients_within(a, b, s, target, p, q);
        assert(a == 0 ==> p == 0) by (nonlinear_arith)
            requires
                p * s <= a * target,
                s > 0,
                p >= 0,
        ;
        assert(b == 0 ==> q == 0) by (nonlinear_arith)
            requires
                q * s <= b * target,
                s > 0,
                q >= 0,
        ;
    }

    /// A vector brought to the length `target` points along the vector it
    /// came from and is never longer than `target`. Where the target is at
    /// most `AMPLE`, or the vector is at least as long as the target, the
    /// result has the length `target` up to rounding; where the vector is at
    /// least as long as the target, no component of the result is larger
    /// than it was.
    pub proof fn lemma_with_length(self, target: nat)
        requires
            self != Vec2::spec_zero(),
            target <= i64::MAX,
        ensures
            self.spec_with_length(target).spec_length_squared() <= target * target,
            self.spec_points_along(self.spec_with_length(target)),
            target <= AMPLE || target * target <= self.spec_length_squared()
                ==> self.spec_with_length(target).spec_has_length(target),
            target * target <= self.spec_length_squared() ==> {
                &&& magnitude(self.spec_with_length(target).x as int) <= magnitude(self.x as int)
                &&& magnitude(self.spec_with_length(target).y as int) <= magnitude(self.y as int)
            },
    {
        let ample = self.spec_amplified();
        let f = amplifier(self.spec_larger_magnitude());
        let w = self.spec_with_length(target);
        let s = ample.spec_length();
        let a = magnitude(self.x as int);
        let b = magnitude(self.y as int);
        let fa = magnitude(ample.x as int);
        let fb = magnitude(ample.y as int);
        let p = quotient(ample.x, target, s);
        let q = quotient(ample.y, target, s);
        self.lemma_amplified();
        self.lemma_length_bounds();
        ample.lemma_length_bounds();
        ample.lemma_rescaled(target);
        lemma_square_of_magnitude(w.x as int);
        lemma_square_of_magnitude(w.y as int);
        // The direction: the cross product with the amplified vector is the
        // amplifier times the cross product with the vector itself.
        lemma_quotients_stay_parallel(fa, fb, s, target, p, q);
        let x = self.x as int;
        let y = self.y as int;
        let wx = w.x as int;
        let wy = w.y as int;
        assert(f * (x * wy - y * wx) == fa * q - fb * p || f * (x * wy - y * wx) == fb * p - fa * q)
            by (nonlinear_arith)
            requires
                (x >= 0 && x * f == fa && wx == p) || (x <= 0 && x * f == -fa && wx == -p),
                (y >= 0 && y * f == fb && wy == q) || (y <= 0 && y * f == -fb && wy == -q),
        ;
        let m = self.spec_larger_magnitude();
        assert(magnitude(x * wy - y * wx) < m) by (nonlinear_arith)
            requires
                magnitude(x * wy - y * wx) == x * wy - y * wx || magnitude(x * wy - y * wx) == -(x
                    * wy - y * wx),
                -(m * f) < f * (x * wy - y * wx) < m * f,
                f >= 1,
        ;
        // The length.
        let tt = target * target;
        let nn = self.spec_length_squared();
        if target <= AMPLE {
            assert(target <= s);
        }
        if tt <= nn {
            lemma_amplified_length(a, b, f, fa, fb, target, s);
            lemma_quotient_of_smaller_factor(a, f, target, s, p);
            lemma_quotient_of_smaller_factor(b, f, target, s, q);
            assert(target <= f * target) by (nonlinear_arith)
                requires
                    f >= 1,
                    target >= 0,
            ;
        }
        if target <= s {
            lemma_quotients_reach(fa, fb, s, target, p, q);
        }
    }

    /// The components of a unit vector, from the amplifier `f` of the
    /// vector and the rounded-up length `s` of its amplified form: each is
    /// the component times `f * ONE / s`, rounded toward zero.
    pub proof fn lemma_normalized_components(self, f: nat, s: nat)
        requires
            self != Vec2::spec_zero(),
            f == amplifier(self.spec_larger_magnitude()),
            s * s >= (magnitude(self.x as int) * f) * (magnitude(self.x as int) * f) + (magnitude(
                self.y as int,
            ) * f) * (magnitude(self.y as int) * f),
            s > 0 ==> (s - 1) * (s - 1) < (magnitude(self.x as int) * f) * (magnitude(
                self.x as int,
            ) * f) + (magnitude(self.y as int) * f) * (magnitude(self.y as int) * f),
        ensures
            magnitude(self.spec_normalize_or_zero().x as int) == ((magnitude(self.x as int) * f)
                as int * ONE) / (s as int),
            magnitude(self.spec_normalize_or_zero().y as int) == ((magnitude(self.y as int) * f)
                as int * ONE) / (s as int),
            self.x >= 0 ==> self.spec_normalize_or_zero().x >= 0,
            self.x <= 0 ==> self.spec_normalize_or_zero().x <= 0,
            self.y >= 0 ==> self.spec_normalize_or_zero().y >= 0,
            self.y <= 0 ==> self.spec_normalize_or_zero().y <= 0,
    {
        let ample = self.spec_amplified();
        self.lemma_amplified();
        ample.lemma_length_bounds();
        lemma_ceil_sqrt(ample.spec_length_squared());
        assert(is_ceil_sqrt(ample.spec_length_squared(), s));
        ample.lemma_rescaled(ONE as nat);
    }

    /// Only the zero vector is normalized to zero.
    pub proof fn lemma_normalized_is_not_zero(self)
        ensures
            self == Vec2::spec_zero() <==> self.spec_normalize_or_zero() == Vec2::spec_zero(),
    {
        if self != Vec2::spec_zero() {
            self.lemma_with_length(ONE as nat);
            let n = self.spec_normalize_or_zero();
            assert(n.spec_has_length(ONE as nat));
            if n == Vec2::spec_zero() {
                let two = magnitude(n.x as int) + 2;
                assert(two * two == 4) by (nonlinear_arith)
                    requires
                        two == 2,
                ;
                assert((ONE as nat) * (ONE as nat) == 1_000_000_000_000);
            }
        }
    }

    /// Doubling a vector that is short of `AMPLE` changes nothing in what
    /// it is brought to: the result of `spec_with_length`, and so the unit
    /// vector, does not depend on the scale.
    pub proof fn lemma_with_length_of_double(self, target: nat)
        requires
            self.spec_larger_magnitude() < AMPLE,
        ensures
            (Vec2 { x: (2 * self.x) as i64, y: (2 * self.y) as i64 }).spec_with_length(target)
                == self.spec_with_length(target),
    {
        if self != Vec2::spec_zero() {
            lemma_amplified_of_double(self);
        }
    }
}

impl Default for Vec2 {
    /// The zero vector.
    fn default() -> (v: Vec2)
        ensures
            v == Vec2::spec_zero(),
    {
        Vec2 { x: 0, y: 0 }
    }
}

/// The square of a number is the square of its magnitude.
pub proof fn lemma_square_of_magnitude(v: int)
    ensures
        magnitude(v) * magnitude(v) == v * v,
{
    assert(magnitude(v) * magnitude(v) == v * v) by (nonlinear_arith)
        requires
            magnitude(v) == v || magnitude(v) == -v,
    ;
}

/// The amplifier is at least one; it is one for zero and for a magnitude
/// of at least `AMPLE`, and brings any other magnitude to at least `AMPLE`
/// and below twice that.
pub proof fn lemma_amplifier(m: nat)
    ensures
        amplifier(m) >= 1,
        m == 0 || m >= AMPLE ==> amplifier(m) == 1,
        0 < m < AMPLE ==> AMPLE <= m * amplifier(m) < 2 * AMPLE,
    decreases 2 * AMPLE - m,
{
    if 0 < m < AMPLE {
        lemma_amplifier(2 * m);
        let g = amplifier(2 * m);
        assert(m * (2 * g) == (2 * m) * g) by (nonlinear_arith);
        if 2 * m >= AMPLE {
            assert((2 * m) * 1 == 2 * m);
        }
    }
}

/// A vector short of `AMPLE` but not zero is amplified to what its double
/// is amplified to.
pub proof fn lemma_amplified_of_double(v: Vec2)
    requires
        0 < v.spec_larger_magnitude() < AMPLE,
    ensures
        (Vec2 { x: (2 * v.x) as i64, y: (2 * v.y) as i64 }).spec_larger_magnitude() == 2
            * v.spec_larger_magnitude(),
        (Vec2 { x: (2 * v.x) as i64, y: (2 * v.y) as i64 }).spec_amplified() == v.spec_amplified(),
        -AMPLE < v.x < AMPLE,
        -AMPLE < v.y < AMPLE,
{
    let m = v.spec_larger_magnitude();
    let g = amplifier(2 * m);
    let x = v.x as int;
    let y = v.y as int;
    assert((2 * x) * g == x * (2 * g) && (2 * y) * g == y * (2 * g)) by (nonlinear_arith);
}

/// With `p = a * t / s`, `q = b * t / s` and `s * s >= a * a + b * b`, the
/// quotients are at most `t` and their squares sum to at most `t * t`.
proof fn lemma_quotients_within(a: nat, b: nat, s: nat, t: nat, p: nat, q: nat)
    requires
        s > 0,
        s * s >= a * a + b * b,
        a <= s,
        b <= s,
        p * s <= a * t,
        q * s <= b * t,
    ensures
        p <= t,
        q <= t,
        p * p + q * q <= t * t,
{
    assert(p <= t) by (nonlinear_arith)
        requires
            p * s <= a * t,
            a <= s,
            s > 0,
    ;
    assert(q <= t) by (nonlinear_arith)
        requires
            q * s <= b * t,
            b <= s,
            s > 0,
    ;
    lemma_square_monotonic(p * s, a * t);
    lemma_square_monotonic(q * s, b * t);
    let pp = p * p;
    let qq = q * q;
    let ss = s * s;
    let tt = t * t;
    let aa = a * a;
    let bb = b * b;
    assert((p * s) * (p * s) == pp * ss) by (nonlinear_arith)
        requires
            pp == p * p,
            ss == s * s,
    ;
    assert((q * s) * (q * s) == qq * ss) by (nonlinear_arith)
        requires
            qq == q * q,
            ss == s * s,
    ;
    assert((a * t) * (a * t) == aa * tt) by (nonlinear_arith)
        requires
            aa == a * a,
            tt == t * t,
    ;
    assert((b * t) * (b * t) == bb * tt) by (nonlinear_arith)
        requires
            bb == b * b,
            tt == t * t,
    ;
    assert(ss > 0) by (nonlinear_arith)
        requires
            ss == s * s,
            s > 0,
    ;
    assert((pp + qq) * ss <= tt * ss) by (nonlinear_arith)
        requires
            pp * ss <= aa * tt,
            qq * ss <= bb * tt,
            aa + bb <= ss,
            tt >= 0,
    ;
    assert(pp + qq <= tt) by (nonlinear_arith)
        requires
            (pp + qq) * ss <= tt * ss,
            ss > 0,
    ;
}

/// With `p = a * t / s` and `q = b * t / s`, where `s` is the length of
/// `(a, b)` rounded up and at least `t`, the quotients with two added to
/// each reach beyond the length `t`.
proof fn lemma_quotients_reach(a: nat, b: nat, s: nat, t: nat, p: nat, q: nat)
    requires
        s > 0,
        t <= s,
        (s - 1) * (s - 1) < a * a + b * b,
        a * t < p * s + s,
        b * t < q * s + s,
    ensures
        (p + 2) * (p + 2) + (q + 2) * (q + 2) > t * t,
{
    let u = a * t + s;
    let v = b * t + s;
    let big_p = (p + 2) * s;
    let big_q = (q + 2) * s;
    assert(big_p > u && big_q > v) by (nonlinear_arith)
        requires
            big_p == (p + 2) * s,
            big_q == (q + 2) * s,
            u < p * s + s + s,
            v < q * s + s + s,
    ;
    lemma_square_monotonic(u + 1, big_p);
    lemma_square_monotonic(v + 1, big_q);
    assert((u + 1) * (u + 1) > u * u && (v + 1) * (v + 1) > v * v) by (nonlinear_arith)
        requires
            u >= 0,
            v >= 0,
    ;
    // a + b >= s, since (a + b)^2 >= a^2 + b^2 > (s - 1)^2.
    assert(a + b >= s) by (nonlinear_arith)
        requires
            (s - 1) * (s - 1) < a * a + b * b,
            s > 0,
            a >= 0,
            b >= 0,
    ;
    let aa = a * a;
    let bb = b * b;
    let ss = s * s;
    let tt = t * t;
    assert(aa + bb >= ss - 2 * s + 2) by (nonlinear_arith)
        requires
            (s - 1) * (s - 1) < aa + bb,
            ss == s * s,
    ;
    let ts = t * s;
    let at = a * t;
    let bt = b * t;
    // u^2 + v^2 = t^2 (a^2 + b^2) + 2 t s (a + b) + 2 s^2.
    assert(u * u == at * at + 2 * (at * s) + ss && v * v == bt * bt + 2 * (bt * s) + ss)
        by (nonlinear_arith)
        requires
            u == at + s,
            v == bt + s,
            ss == s * s,
    ;
    assert(at * at == tt * aa && bt * bt == tt * bb) by (nonlinear_arith)
        requires
            at == a * t,
            bt == b * t,
            aa == a * a,
            bb == b * b,
            tt == t * t,
    ;
    assert(at * s == ts * a && bt * s == ts * b) by (nonlinear_arith)
        requires
            at == a * t,
            bt == b * t,
            ts == t * s,
    ;
    assert(tt * aa + tt * bb == tt * (aa + bb) && ts * a + ts * b == ts * (a + b))
        by (nonlinear_arith);
    assert(u * u + v * v == tt * (aa + bb) + 2 * (ts * (a + b)) + 2 * ss);
    assert(tt * (aa + bb) >= tt * (ss - 2 * s + 2)) by (nonlinear_arith)
        requires
            aa + bb >= ss - 2 * s + 2,
            tt >= 0,
    ;
    assert(ts * (a + b) >= ts * s) by (nonlinear_arith)
        requires
            a + b >= s,
            ts >= 0,
    ;
    assert(tt * (ss - 2 * s + 2) == tt * ss - 2 * (tt * s) + 2 * tt) by (nonlinear_arith);
    assert(ts * s >= tt * s && tt >= 0) by (nonlinear_arith)
        requires
            tt == t * t,
            ts == t * s,
            0 <= t <= s,
    ;
    assert(ts >= 0) by (nonlinear_arith)
        requires
            ts == t * s,
            t >= 0,
            s >= 0,
    ;
    assert(ss > 0) by (nonlinear_arith)
        requires
            ss == s * s,
            s > 0,
    ;
    let pp = (p + 2) * (p + 2);
    let qq = (q + 2) * (q + 2);
    assert(big_p * big_p == pp * ss && big_q * big_q == qq * ss) by (nonlinear_arith)
        requires
            big_p == (p + 2) * s,
            big_q == (q + 2) * s,
            pp == (p + 2) * (p + 2),
            qq == (q + 2) * (q + 2),
            ss == s * s,
    ;
    assert((pp + qq) * ss == pp * ss + qq * ss) by (nonlinear_arith);
    assert(pp + qq > tt) by (nonlinear_arith)
        requires
            (pp + qq) * ss > tt * ss,
            ss > 0,
    ;
}

/// With `p = a * t / s` and `q = b * t / s`, the vectors `(a, b)` and `(p, q)`
/// are parallel up to rounding.
proof fn lemma_quotients_stay_parallel(a: nat, b: nat, s: nat, t: nat, p: nat, q: nat)
    requires
        s > 0,
        a <= s,
        b <= s,
        a > 0 || b > 0,
        p * s <= a * t < p * s + s,
        q * s <= b * t < q * s + s,
    ensures
        a * q - b * p < a || a * q - b * p < b,
        b * p - a * q < a || b * p - a * q < b,
{
    let aq = a * q;
    let bp = b * p;
    assert(a * (q * s) == aq * s && b * (p * s) == bp * s && a * (b * t) == b * (a * t))
        by (nonlinear_arith)
        requires
            aq == a * q,
            bp == b * p,
    ;
    assert(a * (q * s) <= a * (b * t) && a * (b * t) <= a * (q * s) + a * s - a)
        by (nonlinear_arith)
        requires
            q * s <= b * t,
            b * t <= q * s + s - 1,
            a >= 0,
    ;
    assert(b * (p * s) <= b * (a * t) && b * (a * t) <= b * (p * s) + b * s - b)
        by (nonlinear_arith)
        requires
            p * s <= a * t,
            a * t <= p * s + s - 1,
            b >= 0,
    ;
    // Hence `aq * s - bp * s` lies between `-(a * s - a)` and `b * s - b`.
    assert(aq - bp < b || (b == 0 && aq - bp <= 0)) by (nonlinear_arith)
        requires
            aq * s - bp * s <= b * s - b,
            s > 0,
            b >= 0,
    ;
    assert(bp - aq < a || (a == 0 && bp - aq <= 0)) by (nonlinear_arith)
        requires
            bp * s - aq * s <= a * s - a,
            s > 0,
            a >= 0,
    ;
}

/// The length `s` of a vector amplified by `f` is at least `f` times any
/// `t` that the vector itself is at least as long as.
proof fn lemma_amplified_length(a: nat, b: nat, f: nat, fa: nat, fb: nat, t: nat, s: nat)
    requires
        fa == a * f,
        fb == b * f,
        t * t <= a * a + b * b,
        s * s >= fa * fa + fb * fb,
    ensures
        f * t <= s,
{
    let ft = f * t;
    assert(ft * ft <= fa * fa + fb * fb) by (nonlinear_arith)
        requires
            ft == f * t,
            fa == a * f,
            fb == b * f,
            t * t <= a * a + b * b,
    ;
    if s < ft {
        lemma_square_monotonic(s + 1, ft);
        assert((s + 1) * (s + 1) > s * s) by (nonlinear_arith);
    }
}

/// A component amplified by `f` and then scaled by `t / s`, where `s` is
/// at least `f * t`, is not larger than it was.
proof fn lemma_quotient_of_smaller_factor(a: nat, f: nat, t: nat, s: nat, p: nat)
    requires
        s > 0,
        f * t <= s,
        p * s <= (a * f) * t,
    ensures
        p <= a,
{
    assert(p <= a) by (nonlinear_arith)
        requires
            p * s <= (a * f) * t,
            f * t <= s,
            s > 0,
            a >= 0,
            p >= 0,
            f >= 0,
            t >= 0,
    ;
}

} // verus!
