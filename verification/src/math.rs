//! Low-level integer-math helpers.
use crate::error::AmmMathError;
use vstd::arithmetic::div_mod::lemma_fundamental_div_mod;
use vstd::arithmetic::power2::{lemma2_to64, lemma_pow2_adds, lemma_pow2_strictly_increases, pow2};
use vstd::prelude::*;

verus! {

/// `ceil(n / d)` for a positive `d`.
pub open spec fn ceil_div(n: int, d: int) -> int {
    (n + d - 1) / d
}

/// `r` is the integer square root of `v`: the largest `r` whose square does not exceed `v`.
pub open spec fn is_isqrt(v: int, r: int) -> bool {
    &&& 0 <= r
    &&& r * r <= v
    &&& v < (r + 1) * (r + 1)
}

/// `floor(sqrt(v))`.
pub open spec fn isqrt(v: nat) -> nat {
    (choose|r: int| #[trigger] is_isqrt(v as int, r)) as nat
}

/// The value that [`narrow_u64`] returns for `n`.
pub open spec fn narrow_u64_result(n: int) -> Result<u64, AmmMathError> {
    if n <= u64::MAX {
        Ok(n as u64)
    } else {
        Err(AmmMathError::Overflow)
    }
}

/// Squaring is monotone on the naturals.
pub proof fn lemma_square_monotone(a: int, b: int)
    requires
        0 <= a <= b,
    ensures
        a * a <= b * b,
{
    assert(a * a <= b * b) by (nonlinear_arith)
        requires
            0 <= a <= b,
    ;
}

/// Every natural number has exactly one integer square root.
pub proof fn lemma_isqrt(v: nat)
    ensures
        is_isqrt(v as int, isqrt(v) as int),
        forall|r: int| #[trigger] is_isqrt(v as int, r) ==> r == isqrt(v),
{
    lemma_isqrt_exists(v);
    assert forall|r: int| #[trigger] is_isqrt(v as int, r) implies r == isqrt(v) by {
        lemma_isqrt_unique(v as int, r, isqrt(v) as int);
    }
}

proof fn lemma_isqrt_exists(v: nat)
    ensures
        exists|r: int| #[trigger] is_isqrt(v as int, r),
    decreases v,
{
    if v == 0 {
        assert(is_isqrt(0, 0));
    } else {
        lemma_isqrt_exists((v - 1) as nat);
        let w = (v - 1) as int;
        let r = choose|r: int| #[trigger] is_isqrt(w, r);
        if (r + 1) * (r + 1) <= v {
            assert((r + 1) * (r + 1) < (r + 2) * (r + 2)) by (nonlinear_arith)
                requires
                    r >= 0,
            ;
            assert(is_isqrt(v as int, r + 1));
        } else {
            assert(is_isqrt(v as int, r));
        }
    }
}

proof fn lemma_isqrt_unique(v: int, r1: int, r2: int)
    requires
        is_isqrt(v, r1),
        is_isqrt(v, r2),
    ensures
        r1 == r2,
{
    if r1 < r2 {
        lemma_square_monotone(r1 + 1, r2);
    } else if r2 < r1 {
        lemma_square_monotone(r2 + 1, r1);
    }
}

/// One step of Newton's iteration `n = (x + v / x) / 2` never lands below the
/// integer square root, and it strictly decreases while `x` is above it.
proof fn lemma_newton_step(v: int, x: int, q: int, n: int)
    requires
        v >= 1,
        x >= 1,
        q == v / x,
        n == (x + q) / 2,
    ensures
        (n + 1) * (n + 1) > v,
        x * x > v ==> n < x,
{
    lemma_fundamental_div_mod(v, x);
    let m = v % x;
    assert(0 <= m < x);
    assert(v == x * q + m);
    assert(q >= 0) by (nonlinear_arith)
        requires
            v >= 1,
            x >= 1,
            q == v / x,
    ;
    // (2n + 2)^2 >= (x + q + 1)^2 >= 4 x (q + 1) > 4 v
    assert((n + 1) * (n + 1) > v) by (nonlinear_arith)
        requires
            x >= 1,
            q >= 0,
            0 <= m < x,
            v == x * q + m,
            2 * n + 2 >= x + q + 1,
    {
        assert((x + q + 1) * (x + q + 1) - 4 * x * (q + 1) == (x - q - 1) * (x - q - 1));
        assert((x - q - 1) * (x - q - 1) >= 0);
        assert((2 * n + 2) * (2 * n + 2) >= (x + q + 1) * (x + q + 1));
    }
    if x * x > v {
        assert(q < x) by (nonlinear_arith)
            requires
                x >= 1,
                q >= 0,
                0 <= m,
                v == x * q + m,
                x * x > v,
        ;
    }
}

/// While `(x + 1)^2 > v`, the quotient `v / x` stays within `x + 2`, which
/// keeps `x + v / x` far from overflowing.
proof fn lemma_newton_quotient_bound(v: int, x: int)
    requires
        v >= 0,
        x >= 1,
        (x + 1) * (x + 1) > v,
    ensures
        v / x <= x + 2,
{
    lemma_fundamental_div_mod(v, x);
    let q = v / x;
    let m = v % x;
    assert(q <= x + 2) by (nonlinear_arith)
        requires
            x >= 1,
            0 <= m,
            v == x * q + m,
            (x + 1) * (x + 1) > v,
    ;
}

/// `1 << h` is `2^h`.
proof fn lemma_u128_one_shl(h: u32)
    requires
        h < 128,
    ensures
        (1u128 << h) == pow2(h as nat),
    decreases h,
{
    if h == 0 {
        assert((1u128 << 0u32) == 1u128) by (bit_vector);
        lemma2_to64();
    } else {
        lemma_u128_one_shl((h - 1) as u32);
        assert((1u128 << h) == 2 * (1u128 << ((h - 1) as u32))) by (bit_vector)
            requires
                0 < h < 128,
        ;
        lemma_pow2_adds((h - 1) as nat, 1);
        lemma2_to64();
    }
}

/// `u128::leading_zeros`.
///
/// Trusted: std documents the result as the number of leading zero bits in
/// the binary representation, so the value lies below `2^(128 - r)` and, when
/// it is not zero, at or above `2^(127 - r)`.
#[verifier::external_body]
fn u128_leading_zeros(value: u128) -> (r: u32)
    ensures
        r <= 128,
        (value as nat) < pow2((128 - r) as nat),
        r < 128 ==> pow2((127 - r) as nat) <= value,
{
    value.leading_zeros()
}

/// Narrow a `u128` to `u64`, returning `Err(Overflow)` if it doesn't fit.
pub fn narrow_u64(n: u128) -> (r: Result<u64, AmmMathError>)
    ensures
        r == narrow_u64_result(n as int),
{
    match u64::try_from(n) {
        Ok(narrowed) => Ok(narrowed),
        Err(_) => Err(AmmMathError::Overflow),
    }
}

/// Ceiling division: `ceil(numerator / denominator)`.
///
/// Returns `Err(ZeroDiv)` on zero denominator, `Err(Overflow)`
/// if `numerator + (denominator - 1)` would overflow `u128`.
pub fn div_ceil(numerator: u128, denominator: u128) -> (r: Result<u128, AmmMathError>)
    ensures
        r == (if denominator == 0 {
            Err(AmmMathError::ZeroDiv)
        } else if numerator + denominator - 1 > u128::MAX {
            Err(AmmMathError::Overflow)
        } else {
            Ok(ceil_div(numerator as int, denominator as int) as u128)
        }),
        r matches Ok(q) ==> q * denominator >= numerator && (q - 1) * denominator < numerator,
        r matches Ok(q) ==> (numerator % denominator == 0 ==> q == numerator / denominator),
{
    if denominator == 0 {
        return Err(AmmMathError::ZeroDiv);
    }
    let r = Ok(numerator.checked_add(denominator - 1).ok_or(AmmMathError::Overflow)? / denominator);
    proof {
        lemma_ceil_div_bounds(numerator as int, denominator as int);
    }
    r
}

/// `ceil_div(n, d)` is the least multiple count of `d` that covers `n`.
pub proof fn lemma_ceil_div_bounds(n: int, d: int)
    requires
        n >= 0,
        d > 0,
    ensures
        ceil_div(n, d) >= 0,
        ceil_div(n, d) * d >= n,
        (ceil_div(n, d) - 1) * d < n,
        n % d == 0 ==> ceil_div(n, d) == n / d,
{
    let q = ceil_div(n, d);
    lemma_fundamental_div_mod(n + d - 1, d);
    lemma_fundamental_div_mod(n, d);
    let m = (n + d - 1) % d;
    assert(q >= 0) by (nonlinear_arith)
        requires
            n >= 0,
            d > 0,
            q == (n + d - 1) / d,
    ;
    assert(q * d >= n && (q - 1) * d < n) by (nonlinear_arith)
        requires
            d > 0,
            0 <= m < d,
            n + d - 1 == d * q + m,
    ;
    if n % d == 0 {
        let k = n / d;
        assert(n == d * k);
        assert(q == k) by (nonlinear_arith)
            requires
                d > 0,
                n == d * k,
                q * d >= n,
                (q - 1) * d < n,
        ;
    }
}

/// `floor((a * b) / denominator)` with overflow-checked intermediate.
///
/// The `u128` intermediate prevents overflow during multiplication of two near-`u64` operands.
pub fn checked_mul_div_floor(a: u128, b: u128, denominator: u128) -> (r: Result<u128, AmmMathError>)
    ensures
        r == (if denominator == 0 {
            Err(AmmMathError::ZeroDiv)
        } else if a * b > u128::MAX {
            Err(AmmMathError::Overflow)
        } else {
            Ok(((a * b) / (denominator as int)) as u128)
        }),
        r matches Ok(q) ==> q * denominator <= a * b && a * b < (q + 1) * denominator,
        r matches Ok(q) ==> (b % denominator == 0 ==> q == a * (b / denominator)),
{
    if denominator == 0 {
        return Err(AmmMathError::ZeroDiv);
    }
    let r = Ok(a.checked_mul(b).ok_or(AmmMathError::Overflow)? / denominator);
    proof {
        lemma_floor_div_bounds(a * b, denominator as int);
        if b % denominator == 0 {
            lemma_fundamental_div_mod(b as int, denominator as int);
            lemma_floor_div_exact(a as int, denominator as int, (b / denominator) as int);
        }
    }
    r
}

/// `floor(n / d)` brackets `n` between consecutive multiples of `d`.
pub proof fn lemma_floor_div_bounds(n: int, d: int)
    requires
        n >= 0,
        d > 0,
    ensures
        (n / d) * d <= n,
        n < (n / d + 1) * d,
        n / d >= 0,
{
    lemma_fundamental_div_mod(n, d);
    let q = n / d;
    let m = n % d;
    assert(q * d <= n && n < (q + 1) * d && q >= 0) by (nonlinear_arith)
        requires
            d > 0,
            n >= 0,
            0 <= m < d,
            n == d * q + m,
    ;
}

proof fn lemma_floor_div_exact(a: int, d: int, m: int)
    requires
        a >= 0,
        d > 0,
    ensures
        (a * (d * m)) / d == a * m,
{
    assert(a * (d * m) == d * (a * m)) by (nonlinear_arith);
    lemma_fundamental_div_mod(d * (a * m), d);
    let q = (d * (a * m)) / d;
    let r = (d * (a * m)) % d;
    assert(q == a * m) by (nonlinear_arith)
        requires
            d > 0,
            0 <= r < d,
            d * (a * m) == d * q + r,
    ;
}

/// `ceil((a * b) / denominator)` with overflow-checked intermediate.
///
/// Composes [`checked_mul_div_floor`]'s overflow guard with [`div_ceil`]'s rounding.
pub fn checked_mul_div_ceil(a: u128, b: u128, denominator: u128) -> (r: Result<u128, AmmMathError>)
    ensures
        r == (if a * b > u128::MAX {
            Err(AmmMathError::Overflow)
        } else if denominator == 0 {
            Err(AmmMathError::ZeroDiv)
        } else if a * b + denominator - 1 > u128::MAX {
            Err(AmmMathError::Overflow)
        } else {
            Ok(ceil_div(a * b, denominator as int) as u128)
        }),
        r matches Ok(q) ==> q * denominator >= a * b && (q - 1) * denominator < a * b,
{
    let product = a.checked_mul(b).ok_or(AmmMathError::Overflow)?;
    div_ceil(product, denominator)
}

/// `floor(sqrt(value))` over `u128` using Newton's method.
///
/// The initial estimate `2^ceil(bits / 2)` is the smallest power of 2 at least
/// as large as `sqrt(value)`, which bounds `x + value/x` away from overflow at
/// the `value = u128::MAX` boundary.
pub fn integer_sqrt_floor(value: u128) -> (r: u128)
    ensures
        r == isqrt(value as nat),
        r * r <= value,
        value < (r + 1) * (r + 1),
{
    if value == 0 {
        proof {
            assert(is_isqrt(0, 0));
            lemma_isqrt(0);
        }
        return 0;
    }
    let bits = 128 - u128_leading_zeros(value);
    let half = (bits + 1) / 2;
    proof {
        lemma_u128_one_shl(half);
        lemma_pow2_adds(half as nat, half as nat);
        if 2 * half > bits {
            lemma_pow2_strictly_increases(bits as nat, (2 * half) as nat);
        }
        if half < 64 {
            lemma_pow2_strictly_increases(half as nat, 64);
        }
        lemma2_to64();
        let x0 = pow2(half as nat) as int;
        assert(x0 * x0 > value);
        assert((x0 + 1) * (x0 + 1) > value) by (nonlinear_arith)
            requires
                x0 >= 0,
                x0 * x0 > value,
        ;
    }
    let mut x = 1u128 << half;
    proof {
        lemma_newton_quotient_bound(value as int, x as int);
    }
    let mut next = (x + value / x) / 2;
    while next < x
        invariant
            value >= 1,
            1 <= x <= 0x1_0000_0000_0000_0000u128,
            (x + 1) * (x + 1) > value,
            next == (x + value / x) / 2,
        decreases x,
    {
        proof {
            lemma_newton_step(value as int, x as int, (value / x) as int, next as int);
            assert(next >= 1) by (nonlinear_arith)
                requires
                    (next + 1) * (next + 1) > value,
                    value >= 1,
            ;
        }
        x = next;
        proof {
            lemma_newton_quotient_bound(value as int, x as int);
        }
        next = (x + value / x) / 2;
    }
    proof {
        lemma_newton_step(value as int, x as int, (value / x) as int, next as int);
        assert(is_isqrt(value as int, x as int));
        lemma_isqrt(value as nat);
    }
    x
}

} // verus!
