//! Integer square roots, rounded up.

use vstd::prelude::*;

verus! {

/// Whether `r` is the least natural number whose square reaches `n`.
pub open spec fn is_ceil_sqrt(n: nat, r: nat) -> bool {
    &&& r * r >= n
    &&& r > 0 ==> (r - 1) * (r - 1) < n
}

/// The square root of `n`, rounded up: the least `r` with `r * r >= n`.
pub open spec fn ceil_sqrt(n: nat) -> nat {
    choose|r: nat| is_ceil_sqrt(n, r)
}

/// Squaring keeps the order of natural numbers.
pub proof fn lemma_square_monotonic(a: nat, b: nat)
    requires
        a <= b,
    ensures
        a * a <= b * b,
{
    assert(a * a <= b * b) by (nonlinear_arith)
        requires
            0 <= a <= b,
    ;
}

/// At most one number is the rounded-up root of `n`.
pub proof fn lemma_ceil_sqrt_unique(n: nat, r1: nat, r2: nat)
    requires
        is_ceil_sqrt(n, r1),
        is_ceil_sqrt(n, r2),
    ensures
        r1 == r2,
{
    if r1 < r2 {
        lemma_square_monotonic(r1, (r2 - 1) as nat);
    } else if r2 < r1 {
        lemma_square_monotonic(r2, (r1 - 1) as nat);
    }
}

/// Every natural number has a rounded-up root.
proof fn lemma_ceil_sqrt_witness(n: nat) -> (r: nat)
    ensures
        is_ceil_sqrt(n, r),
    decreases n,
{
    if n == 0 {
        0
    } else {
        let p = lemma_ceil_sqrt_witness((n - 1) as nat);
        if p * p >= n {
            p
        } else {
            assert((p + 1) * (p + 1) >= n) by (nonlinear_arith)
                requires
                    p * p >= n - 1,
            ;
            (p + 1) as nat
        }
    }
}

/// `ceil_sqrt(n)` is the rounded-up root of `n`, and nothing else is.
pub proof fn lemma_ceil_sqrt(n: nat)
    ensures
        is_ceil_sqrt(n, ceil_sqrt(n)),
        forall|r: nat| is_ceil_sqrt(n, r) ==> r == ceil_sqrt(n),
{
    let w = lemma_ceil_sqrt_witness(n);
    assert(is_ceil_sqrt(n, ceil_sqrt(n)));
    assert forall|r: nat| is_ceil_sqrt(n, r) implies r == ceil_sqrt(n) by {
        lemma_ceil_sqrt_unique(n, r, ceil_sqrt(n));
    }
}

/// The square root of `n`, rounded up.
pub fn ceil_sqrt_of(n: u128) -> (r: u128)
    ensures
        r == ceil_sqrt(n as nat),
        is_ceil_sqrt(n as nat, r as nat),
        r <= 0x1_0000_0000_0000_0000,
{
    let mut lo: u128 = 0;
    let mut hi: u128 = 0x1_0000_0000_0000_0000;
    assert(hi * hi >= n) by (nonlinear_arith)
        requires
            hi == 0x1_0000_0000_0000_0000,
            n <= 0xffff_ffff_ffff_ffff_ffff_ffff_ffff_ffff,
    ;
    while lo < hi
        invariant
            lo <= hi <= 0x1_0000_0000_0000_0000,
            hi * hi >= n,
            lo > 0 ==> (lo - 1) * (lo - 1) < n,
        decreases hi - lo,
    {
        let mid: u128 = lo + (hi - lo) / 2;
        assert(mid * mid <= 0xffff_ffff_ffff_ffff * 0xffff_ffff_ffff_ffff) by (nonlinear_arith)
            requires
                mid <= 0xffff_ffff_ffff_ffff,
        ;
        if mid * mid >= n {
            hi = mid;
        } else {
            lo = mid + 1;
        }
    }
    proof {
        assert(is_ceil_sqrt(n as nat, lo as nat));
        lemma_ceil_sqrt(n as nat);
    }
    lo
}

} // verus!
