//! Fixed-point scalars: one world unit is `SCALE` raw units, carried in `i64`.

use vstd::prelude::*;

verus! {

/// Raw units per world unit. With `SCALE == 1000`, one raw unit of length is
/// a thousandth of a world unit and one raw unit of time is a millisecond.
pub const SCALE: i64 = 1000;

/// Largest coordinate magnitude the core accepts from the shell. Chosen so
/// that every product formed by the camera and input arithmetic stays inside
/// `i64` (squared horizontal offsets reach `8 * COORD_LIMIT^2`).
pub const COORD_LIMIT: i64 = 1_000_000_000;

/// Truncating (round-toward-zero) division, the rounding rule every
/// fixed-point computation of the core uses. Defined for positive divisors.
pub open spec fn div_trunc(a: int, b: int) -> int {
    if a >= 0 {
        a / b
    } else {
        -((-a) / b)
    }
}

/// Truncating division on raw scalars.
pub fn div_trunc_i64(a: i64, b: i64) -> (r: i64)
    requires
        b > 0,
        a > i64::MIN,
    ensures
        r == div_trunc(a as int, b as int),
{
    if a >= 0 {
        let q: u64 = (a as u64) / (b as u64);
        assert(q == (a as int) / (b as int)) by {
            assert((a as u64) == a as int);
            assert((b as u64) == b as int);
        }
        q as i64
    } else {
        let m: i64 = -a;
        let q: u64 = (m as u64) / (b as u64);
        assert(q == (m as int) / (b as int));
        assert((m as int) / (b as int) <= m as int) by {
            vstd::arithmetic::div_mod::lemma_div_is_ordered_by_denominator(m as int, 1, b as int);
            vstd::arithmetic::div_mod::lemma_div_multiples_vanish(m as int, 1);
        }
        -(q as i64)
    }
}

/// Quotients never grow: `|div_trunc(a, b)| <= |a|` for `b >= 1`.
pub proof fn lemma_div_trunc_shrinks(a: int, b: int)
    requires
        b >= 1,
    ensures
        a >= 0 ==> 0 <= div_trunc(a, b) <= a,
        a < 0 ==> a <= div_trunc(a, b) <= 0,
{
    if a >= 0 {
        vstd::arithmetic::div_mod::lemma_div_is_ordered_by_denominator(a, 1, b);
        vstd::arithmetic::div_mod::lemma_div_multiples_vanish(a, 1);
        vstd::arithmetic::div_mod::lemma_div_pos_is_pos(a, b);
    } else {
        vstd::arithmetic::div_mod::lemma_div_is_ordered_by_denominator(-a, 1, b);
        vstd::arithmetic::div_mod::lemma_div_multiples_vanish(-a, 1);
        vstd::arithmetic::div_mod::lemma_div_pos_is_pos(-a, b);
    }
}

/// Scaling by `m / l` keeps a value that is at most `l` in magnitude within
/// `[-m, m]`: the quotient of `a * m` by `l` cannot pass `m`.
pub proof fn lemma_div_trunc_linear_bound(a: int, m: int, l: int)
    requires
        l >= 1,
        m >= 0,
        -l <= a <= l,
    ensures
        -m <= div_trunc(a * m, l) <= m,
{
    if a >= 0 {
        assert(0 <= a * m <= l * m) by (nonlinear_arith)
            requires 0 <= a <= l, m >= 0;
        vstd::arithmetic::div_mod::lemma_div_pos_is_pos(a * m, l);
        vstd::arithmetic::div_mod::lemma_div_is_ordered(a * m, l * m, l);
        vstd::arithmetic::div_mod::lemma_div_multiples_vanish(m, l);
    } else {
        assert(0 <= (-a) * m <= l * m) by (nonlinear_arith)
            requires 0 < -a <= l, m >= 0;
        assert(-(a * m) == (-a) * m) by (nonlinear_arith);
        vstd::arithmetic::div_mod::lemma_div_pos_is_pos((-a) * m, l);
        vstd::arithmetic::div_mod::lemma_div_is_ordered((-a) * m, l * m, l);
        vstd::arithmetic::div_mod::lemma_div_multiples_vanish(m, l);
    }
}

/// The floor of the square root: the largest `r` with `r * r <= n`.
pub open spec fn sqrt_floor(n: nat) -> nat
    decreases n,
{
    if n == 0 {
        0
    } else {
        let p = sqrt_floor((n - 1) as nat);
        if (p + 1) * (p + 1) <= n {
            p + 1
        } else {
            p
        }
    }
}

/// `sqrt_floor` is what its name says: its square is at most `n`, the next
/// square is beyond `n`.
pub proof fn lemma_sqrt_floor_props(n: nat)
    ensures
        sqrt_floor(n) * sqrt_floor(n) <= n,
        n < (sqrt_floor(n) + 1) * (sqrt_floor(n) + 1),
    decreases n,
{
    if n == 0 {
        assert(sqrt_floor(0) == 0);
        assert(n < (0 + 1) * (0 + 1)) by (nonlinear_arith)
            requires n == 0;
    } else {
        lemma_sqrt_floor_props((n - 1) as nat);
        let p = sqrt_floor((n - 1) as nat);
        assert(p * p <= n - 1 && n - 1 < (p + 1) * (p + 1));
        if (p + 1) * (p + 1) <= n {
            assert(sqrt_floor(n) == p + 1);
            assert((p + 1) * (p + 1) + 1 <= (p + 2) * (p + 2)) by (nonlinear_arith);
            assert(n <= (p + 1) * (p + 1));
        } else {
            assert(sqrt_floor(n) == p);
            assert(n < (p + 1) * (p + 1));
        }
    }
}

/// Any `r` squeezed between the same two squares is the floor root.
pub proof fn lemma_sqrt_floor_unique(n: nat, r: nat)
    requires
        r * r <= n,
        n < (r + 1) * (r + 1),
    ensures
        r == sqrt_floor(n),
{
    let s = sqrt_floor(n);
    lemma_sqrt_floor_props(n);
    if r < s {
        assert((r + 1) * (r + 1) <= s * s) by (nonlinear_arith)
            requires r + 1 <= s;
    }
    if s < r {
        assert((s + 1) * (s + 1) <= r * r) by (nonlinear_arith)
            requires s + 1 <= r;
    }
}

/// Floor square root by bisection over the root.
pub fn isqrt_u64(n: u64) -> (r: u64)
    ensures
        r == sqrt_floor(n as nat),
        r * r <= n,
        n < (r + 1) * (r + 1),
        r < 4294967296,
{
    let mut lo: u64 = 0;
    let mut hi: u64 = 4294967296;
    assert(n < hi * hi) by (nonlinear_arith)
        requires n <= u64::MAX, hi == 4294967296;
    while lo + 1 < hi
        invariant
            lo < hi <= 4294967296,
            lo * lo <= n,
            n < hi * hi,
        decreases hi - lo,
    {
        let mid: u64 = lo + (hi - lo) / 2;
        assert(lo < mid < hi);
        assert(mid * mid <= (4294967295u64) * (4294967295u64)) by (nonlinear_arith)
            requires mid <= 4294967295u64;
        if mid * mid <= n {
            lo = mid;
        } else {
            hi = mid;
        }
    }
    proof {
        lemma_sqrt_floor_unique(n as nat, lo as nat);
    }
    lo
}

} // verus!
