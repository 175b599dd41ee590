use vstd::prelude::*;
use vstd::arithmetic::div_mod::{lemma_div_is_ordered, lemma_div_pos_is_pos};

verus! {

/// One world unit, counted in raw fixed-point steps. Every position,
/// velocity, mass, radius, fuel amount and time delta in this crate is an
/// `i64` counted in these steps (millionths of a world unit or of a second).
pub const SCALE: i64 = 1_000_000;

/// Quotient rounded toward zero (the rounding of Rust's `/` on machine
/// integers), for a positive divisor.
pub open spec fn div_trunc(p: int, d: int) -> int {
    if p >= 0 {
        p / d
    } else {
        -((-p) / d)
    }
}

/// Fixed-point product of two raw values: `(a * b) / SCALE`, rounded
/// toward zero.
pub open spec fn fxmul(a: int, b: int) -> int {
    div_trunc(a * b, SCALE as int)
}

/// Truncating quotient is bounded by the quotient of any bound on the
/// magnitude of the dividend.
pub proof fn lemma_div_trunc_bound(p: int, bound: int, d: int)
    requires
        0 < d,
        -bound <= p <= bound,
    ensures
        -(bound / d) <= div_trunc(p, d) <= bound / d,
        0 <= p ==> 0 <= div_trunc(p, d),
        p <= 0 ==> div_trunc(p, d) <= 0,
{
    if p >= 0 {
        lemma_div_pos_is_pos(p, d);
        lemma_div_is_ordered(p, bound, d);
    } else {
        lemma_div_pos_is_pos(-p, d);
        lemma_div_is_ordered(-p, bound, d);
    }
}

/// `div_trunc` never grows the magnitude of its dividend.
pub proof fn lemma_div_trunc_le(p: int, d: int)
    requires
        0 < d,
    ensures
        p >= 0 ==> 0 <= div_trunc(p, d) <= p,
        p < 0 ==> p <= div_trunc(p, d) <= 0,
{
    if p >= 0 {
        lemma_div_pos_is_pos(p, d);
        vstd::arithmetic::div_mod::lemma_div_nonincreasing(p, d);
    } else {
        lemma_div_pos_is_pos(-p, d);
        vstd::arithmetic::div_mod::lemma_div_nonincreasing(-p, d);
    }
}

/// Division of an `i128` by a positive divisor, rounded toward zero.
pub fn div_trunc_i128(p: i128, d: i128) -> (r: i128)
    requires
        0 < d,
        -0x7fffffffffffffffffffffffffffffff <= p,
    ensures
        r == div_trunc(p as int, d as int),
{
    if p >= 0 {
        let q: u128 = (p as u128) / (d as u128);
        proof {
            lemma_div_pos_is_pos(p as int, d as int);
            vstd::arithmetic::div_mod::lemma_div_nonincreasing(p as int, d as int);
        }
        q as i128
    } else {
        let m: u128 = (-p) as u128;
        let q: u128 = m / (d as u128);
        proof {
            lemma_div_pos_is_pos(-(p as int), d as int);
            vstd::arithmetic::div_mod::lemma_div_nonincreasing(-(p as int), d as int);
        }
        -(q as i128)
    }
}

/// Fixed-point multiplication on raw values. The result must fit in `i64`.
pub fn fmul(a: i64, b: i64) -> (r: i64)
    requires
        i64::MIN <= fxmul(a as int, b as int) <= i64::MAX,
    ensures
        r == fxmul(a as int, b as int),
{
    proof {
        assert((a as int) * (b as int) <= 0x7fffffffffffffffffffffffffffffff
            && -0x7fffffffffffffffffffffffffffffff <= (a as int) * (b as int)) by (nonlinear_arith)
            requires
                -0x8000000000000000 <= a <= 0x7fffffffffffffff,
                -0x8000000000000000 <= b <= 0x7fffffffffffffff,
        ;
    }
    let p: i128 = (a as i128) * (b as i128);
    let q: i128 = div_trunc_i128(p, SCALE as i128);
    proof {
        lemma_div_trunc_le(p as int, SCALE as int);
    }
    q as i64
}

/// Whether a mathematical integer fits the raw machine representation.
pub open spec fn in_i64(x: int) -> bool {
    i64::MIN <= x <= i64::MAX
}

/// The integer square root, defined by counting up.
pub open spec fn sqrt_floor(n: nat) -> nat
    decreases n,
{
    if n == 0 {
        0
    } else {
        let s = sqrt_floor((n - 1) as nat);
        if (s + 1) * (s + 1) <= n {
            s + 1
        } else {
            s
        }
    }
}

/// `sqrt_floor(n)` is the largest integer whose square does not exceed `n`.
pub proof fn lemma_sqrt_floor(n: nat)
    ensures
        sqrt_floor(n) * sqrt_floor(n) <= n,
        n < (sqrt_floor(n) + 1) * (sqrt_floor(n) + 1),
        sqrt_floor(n) <= n,
    decreases n,
{
    if n == 0 {
        assert(sqrt_floor(n) == 0);
        assert(sqrt_floor(n) * sqrt_floor(n) <= n) by (nonlinear_arith)
            requires sqrt_floor(n) == 0 && n == 0,
        ;
        assert(n < (sqrt_floor(n) + 1) * (sqrt_floor(n) + 1)) by (nonlinear_arith)
            requires sqrt_floor(n) == 0 && n == 0,
        ;
    } else {
        lemma_sqrt_floor((n - 1) as nat);
        let s = sqrt_floor((n - 1) as nat);
        if (s + 1) * (s + 1) <= n {
            assert(sqrt_floor(n) == s + 1);
            assert((s + 1) * (s + 1) < (s + 2) * (s + 2)) by (nonlinear_arith)
                requires s >= 0,
            ;
            assert(s + 1 <= n) by (nonlinear_arith)
                requires (s + 1) * (s + 1) <= n && s >= 0,
            ;
        } else {
            assert(sqrt_floor(n) == s);
        }
    }
}

/// The bounds of `lemma_sqrt_floor` characterize the square root uniquely.
pub proof fn lemma_sqrt_unique(n: nat, r: nat)
    requires
        r * r <= n,
        n < (r + 1) * (r + 1),
    ensures
        r == sqrt_floor(n),
{
    lemma_sqrt_floor(n);
    let s = sqrt_floor(n);
    assert(r == s) by (nonlinear_arith)
        requires
            r * r <= n,
            n < (r + 1) * (r + 1),
            s * s <= n,
            n < (s + 1) * (s + 1),
            r >= 0,
            s >= 0,
    ;
}

/// Integer square root of a `u128` below `2^126`, by binary search.
pub fn isqrt(n: u128) -> (r: u64)
    requires
        n < 0x40000000000000000000000000000000,
    ensures
        r == sqrt_floor(n as nat),
        (r as nat) * (r as nat) <= n,
        n < ((r + 1) as nat) * ((r + 1) as nat),
{
    let mut lo: u64 = 0;
    let mut hi: u64 = 0x7fffffffffffffff;
    proof {
        assert(0x8000000000000000 * 0x8000000000000000
            == 0x40000000000000000000000000000000nat) by (nonlinear_arith);
    }
    while lo < hi
        invariant
            lo <= hi <= 0x7fffffffffffffff,
            (lo as nat) * (lo as nat) <= n as nat,
            (n as nat) < ((hi as nat) + 1) * ((hi as nat) + 1),
        decreases hi - lo,
    {
        let mid: u64 = lo + (hi - lo + 1) / 2;
        proof {
            assert((mid as nat) * (mid as nat) < 0x100000000000000000000000000000000) by (nonlinear_arith)
                requires mid <= 0x7fffffffffffffffu64,
            ;
        }
        let sq: u128 = (mid as u128) * (mid as u128);
        if sq <= n {
            lo = mid;
        } else {
            hi = mid - 1;
        }
    }
    proof {
        lemma_sqrt_unique(n as nat, lo as nat);
    }
    lo
}

} // verus!
