//! The share of memory that a model may use: nine tenths, computed in double
//! precision and cut down to whole bytes.
//!
//! The computation runs on integers. A double holds 53 significant bits, so a
//! natural number is rounded to a multiple of the power of two that leaves it
//! 53 bits, ties going to the even multiple. The double nearest to 0.9 is
//! `NINE_TENTHS / 2^53`.

use vstd::prelude::*;

verus! {

/// 2^53: every natural number below it is a double.
pub const TWO_53: u128 = 0x20_0000_0000_0000;

/// The double nearest to 0.9, times 2^53.
pub const NINE_TENTHS: u128 = 0x1C_CCCC_CCCC_CCCD;

/// The distance between neighbouring doubles at `n`, where that is at least one.
pub open spec fn double_spacing(n: nat) -> nat
    decreases n,
{
    if n < TWO_53 {
        1
    } else {
        2 * double_spacing(n / 2)
    }
}

/// The multiple of `unit` that is nearest to `n`; of two, the even one.
pub open spec fn nearest_multiple(n: nat, unit: nat) -> nat {
    let below = n / unit;
    let rest = n % unit;
    if 2 * rest < unit || (2 * rest == unit && below % 2 == 0) {
        below * unit
    } else {
        (below + 1) * unit
    }
}

/// The double that is nearest to the natural number `n`.
pub open spec fn nearest_double(n: nat) -> nat {
    nearest_multiple(n, double_spacing(n))
}

/// Nine tenths of `bytes`: the double product, rounded down to an integer.
pub open spec fn nine_tenths(bytes: nat) -> nat {
    nearest_double(nearest_double(bytes) * NINE_TENTHS as nat) / TWO_53 as nat
}

proof fn lemma_spacing(n: nat)
    ensures
        double_spacing(n) >= 1,
        n < TWO_53 * double_spacing(n),
        n >= TWO_53 ==> TWO_53 * double_spacing(n) <= 2 * n,
    decreases n,
{
    if n >= TWO_53 {
        lemma_spacing(n / 2);
    }
}

proof fn lemma_spacing_monotone(n: nat, m: nat)
    requires
        n <= m,
    ensures
        double_spacing(n) == double_spacing(m) || 2 * double_spacing(n) <= double_spacing(m),
    decreases m,
{
    if m >= TWO_53 {
        if n >= TWO_53 {
            lemma_spacing_monotone(n / 2, m / 2);
        } else {
            lemma_spacing(m / 2);
        }
    }
}

proof fn lemma_division(n: nat, unit: nat)
    requires
        unit >= 1,
    ensures
        n == (n / unit) * unit + n % unit,
        n % unit < unit,
{
    vstd::arithmetic::div_mod::lemma_fundamental_div_mod(n as int, unit as int);
    assert((n / unit) * unit == unit * (n / unit)) by (nonlinear_arith);
}

/// Rounding moves a number by at most half a unit.
proof fn lemma_nearest_multiple_close(n: nat, unit: nat)
    requires
        unit >= 1,
    ensures
        2 * nearest_multiple(n, unit) <= 2 * n + unit,
        2 * n <= 2 * nearest_multiple(n, unit) + unit,
{
    lemma_division(n, unit);
    let q = n / unit;
    assert((q + 1) * unit == q * unit + unit) by (nonlinear_arith);
}

/// Rounding does not cross a multiple of the unit.
proof fn lemma_nearest_multiple_bounds(n: nat, unit: nat, k: nat)
    requires
        unit >= 1,
    ensures
        n <= k * unit ==> nearest_multiple(n, unit) <= k * unit,
        k * unit <= n ==> k * unit <= nearest_multiple(n, unit),
{
    lemma_division(n, unit);
    let q = n / unit;
    let r = n % unit;
    assert((q + 1) * unit == q * unit + unit) by (nonlinear_arith);
    if n <= k * unit {
        if q >= k {
            assert(q * unit >= k * unit) by (nonlinear_arith)
                requires
                    q >= k,
            ;
            assert(r == 0);
        } else {
            assert((q + 1) * unit <= k * unit) by (nonlinear_arith)
                requires
                    q + 1 <= k,
            ;
        }
    }
    if k * unit <= n {
        if q < k {
            assert((q + 1) * unit <= k * unit) by (nonlinear_arith)
                requires
                    q + 1 <= k,
            ;
        } else {
            assert(k * unit <= q * unit) by (nonlinear_arith)
                requires
                    k <= q,
            ;
        }
    }
}

proof fn lemma_nearest_multiple_monotone(n: nat, m: nat, unit: nat)
    requires
        n <= m,
        unit >= 1,
    ensures
        nearest_multiple(n, unit) <= nearest_multiple(m, unit),
{
    lemma_division(n, unit);
    lemma_division(m, unit);
    let q = n / unit;
    let p = m / unit;
    vstd::arithmetic::div_mod::lemma_div_is_ordered(n as int, m as int, unit as int);
    assert((q + 1) * unit == q * unit + unit) by (nonlinear_arith);
    assert((p + 1) * unit == p * unit + unit) by (nonlinear_arith);
    if q < p {
        assert((q + 1) * unit <= p * unit) by (nonlinear_arith)
            requires
                q + 1 <= p,
        ;
    }
}

proof fn lemma_nearest_double_monotone(n: nat, m: nat)
    requires
        n <= m,
    ensures
        nearest_double(n) <= nearest_double(m),
{
    lemma_spacing(n);
    lemma_spacing(m);
    lemma_spacing_monotone(n, m);
    let s = double_spacing(n);
    let t = double_spacing(m);
    if s == t {
        lemma_nearest_multiple_monotone(n, m, s);
    } else {
        let top = TWO_53 as nat;
        lemma_nearest_multiple_bounds(n, s, top);
        let half = 0x10_0000_0000_0000nat;
        assert(half * t <= m && top * s <= half * t) by {
            if m < TWO_53 {
                assert(t == 1);
            }
        }
        lemma_nearest_multiple_bounds(m, t, half);
    }
}

/// A double is off by at most one part in 2^53.
proof fn lemma_nearest_double_close(n: nat)
    ensures
        TWO_53 * nearest_double(n) <= TWO_53 * n + n,
        TWO_53 * n <= TWO_53 * nearest_double(n) + n,
        n < TWO_53 ==> nearest_double(n) == n,
{
    lemma_spacing(n);
    let s = double_spacing(n);
    if n < TWO_53 {
        assert(s == 1);
        assert(n / 1 == n);
        assert(n % 1 == 0);
    } else {
        lemma_nearest_multiple_close(n, s);
    }
}

/// Nine tenths of some memory is never more than that memory.
pub proof fn law_nine_tenths_at_most(bytes: nat)
    ensures
        nine_tenths(bytes) <= bytes,
{
    let a = nearest_double(bytes);
    let p = a * NINE_TENTHS as nat;
    lemma_nearest_double_close(bytes);
    lemma_nearest_double_close(p);
    assert(p == a * 0x1C_CCCC_CCCC_CCCD);
}

/// More memory never lowers the share of it that may be used.
pub proof fn law_nine_tenths_monotone(less: nat, more: nat)
    requires
        less <= more,
    ensures
        nine_tenths(less) <= nine_tenths(more),
{
    lemma_nearest_double_monotone(less, more);
    let a = nearest_double(less);
    let b = nearest_double(more);
    assert(a * NINE_TENTHS as nat <= b * NINE_TENTHS as nat) by (nonlinear_arith)
        requires
            a <= b,
    ;
    lemma_nearest_double_monotone(a * NINE_TENTHS as nat, b * NINE_TENTHS as nat);
}

/// Below 2^53 bytes the share is nine tenths to within two bytes.
pub proof fn law_nine_tenths_close(bytes: nat)
    requires
        bytes < TWO_53,
    ensures
        9 * bytes <= 10 * nine_tenths(bytes) + 20,
        10 * nine_tenths(bytes) <= 9 * bytes + 10,
{
    let p = bytes * NINE_TENTHS as nat;
    lemma_nearest_double_close(bytes);
    lemma_nearest_double_close(p);
    assert(p == bytes * 0x1C_CCCC_CCCC_CCCD);
}

/// Where a number has at most 53 bits in front of the last `j`, the distance
/// between the doubles there divides 2^j.
proof fn lemma_spacing_divides(n: nat, j: nat) -> (q: nat)
    requires
        n < TWO_53 * vstd::arithmetic::power2::pow2(j),
    ensures
        q * double_spacing(n) == vstd::arithmetic::power2::pow2(j),
    decreases j,
{
    if n < TWO_53 {
        let q = vstd::arithmetic::power2::pow2(j);
        assert(q * 1 == q) by (nonlinear_arith);
        q
    } else {
        if j == 0 {
            vstd::arithmetic::power2::lemma2_to64();
            assert(false);
        }
        vstd::arithmetic::power2::lemma_pow2_unfold(j);
        let half = (j - 1) as nat;
        let q = lemma_spacing_divides(n / 2, half);
        let s = double_spacing(n / 2);
        assert(q * (2 * s) == 2 * (q * s)) by (nonlinear_arith);
        q
    }
}

/// A whole number of units of 2^53 is not rounded past.
proof fn lemma_nearest_double_at_least(n: nat, k: nat)
    requires
        n < TWO_53 * TWO_53,
        k * TWO_53 <= n,
    ensures
        k * TWO_53 <= nearest_double(n),
{
    vstd::arithmetic::power2::lemma2_to64();
    vstd::arithmetic::power2::lemma2_to64_rest();
    assert(vstd::arithmetic::power2::pow2(53) == TWO_53);
    let s = double_spacing(n);
    let q = lemma_spacing_divides(n, 53);
    lemma_spacing(n);
    assert((k * q) * s == k * TWO_53) by (nonlinear_arith)
        requires
            q * s == TWO_53,
    ;
    lemma_nearest_multiple_bounds(n, s, k * q);
}

/// Below 2^49 bytes, which is 512 tebibytes, the share is exactly nine tenths,
/// rounded down to whole bytes.
pub proof fn law_nine_tenths_is_exact(bytes: nat)
    requires
        bytes < 0x2_0000_0000_0000,
    ensures
        nine_tenths(bytes) == 9 * bytes / 10,
        10 * nine_tenths(bytes) <= 9 * bytes < 10 * nine_tenths(bytes) + 10,
{
    let p = bytes * NINE_TENTHS as nat;
    let k = 9 * bytes / 10;
    lemma_nearest_double_close(bytes);
    lemma_nearest_double_close(p);
    assert(p == bytes * 0x1C_CCCC_CCCC_CCCD);
    lemma_nearest_double_at_least(p, k);
    let d = nearest_double(p);
    assert(k * TWO_53 <= d < (k + 1) * TWO_53);
    assert(d / TWO_53 as nat == k);
}

/// At any size the share is nine tenths to within two bytes and four parts in
/// 2^53.
pub proof fn law_nine_tenths_close_at_any_size(bytes: nat)
    ensures
        9 * bytes * TWO_53 <= 10 * nine_tenths(bytes) * TWO_53 + 20 * TWO_53 + 40 * bytes,
        10 * nine_tenths(bytes) * TWO_53 <= 9 * bytes * TWO_53 + 40 * bytes,
{
    let a = nearest_double(bytes);
    let p = a * NINE_TENTHS as nat;
    lemma_nearest_double_close(bytes);
    lemma_nearest_double_close(p);
    assert(p == a * 0x1C_CCCC_CCCC_CCCD);
}

/// The double that is nearest to `n`.
fn round_to_double(n: u128) -> (r: u128)
    requires
        n < 0x1000_0000_0000_0000_0000_0000_0000_0000,
    ensures
        r == nearest_double(n as nat),
{
    let mut unit: u128 = 1;
    let mut m: u128 = n;
    while m >= TWO_53
        invariant
            unit >= 1,
            unit * m <= n,
            double_spacing(n as nat) == unit * double_spacing(m as nat),
            n < 0x1000_0000_0000_0000_0000_0000_0000_0000,
        decreases m,
    {
        proof {
            let h = m / 2;
            assert(2 * unit * h <= unit * m && unit <= n) by (nonlinear_arith)
                requires
                    2 * h <= m,
                    unit * m <= n,
                    m >= 1,
            ;
            assert(unit * (2 * double_spacing(h as nat)) == (unit * 2) * double_spacing(h as nat))
                by (nonlinear_arith);
            assert((unit * 2) * h == 2 * unit * h) by (nonlinear_arith);
        }
        m = m / 2;
        unit = unit * 2;
    }
    assert(double_spacing(n as nat) == unit) by {
        assert(double_spacing(m as nat) == 1);
        assert(unit * 1 == unit) by (nonlinear_arith);
    }
    let below: u128 = n / unit;
    let rest: u128 = n % unit;
    proof {
        lemma_spacing(n as nat);
        lemma_division(n as nat, unit as nat);
        assert((below + 1) * unit == below * unit + unit) by (nonlinear_arith);
    }
    if 2 * rest < unit || (2 * rest == unit && below % 2 == 0) {
        below * unit
    } else {
        (below + 1) * unit
    }
}

/// Nine tenths of `bytes`.
pub fn usable_share(bytes: u64) -> (usable: u64)
    ensures
        usable == nine_tenths(bytes as nat),
        usable <= bytes,
        bytes < 0x2_0000_0000_0000 ==> usable == 9 * bytes / 10,
{
    proof {
        law_nine_tenths_at_most(bytes as nat);
        lemma_nearest_double_close(bytes as nat);
        if bytes < 0x2_0000_0000_0000 {
            law_nine_tenths_is_exact(bytes as nat);
        }
    }
    let a: u128 = round_to_double(bytes as u128);
    let product: u128 = a * NINE_TENTHS;
    (round_to_double(product) / TWO_53) as u64
}

} // verus!
