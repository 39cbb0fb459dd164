//! Rounding of exact values to the precision of single-precision floats.
//!
//! A nonnegative single-precision value is a 24 bit significand times a power of two.
//! Scaled by a fixed power of two, such values and the exact results of adding or
//! multiplying them are integers, and the rounding that single-precision arithmetic
//! applies to a result is the rounding of that integer to 24 significant bits,
//! to nearest with ties to even.
use vstd::prelude::*;
use vstd::arithmetic::power2::pow2;

verus! {

/// The number of low bits of `n` that lie beyond its 24 most significant bits.
pub open spec fn sig_shift(n: nat) -> nat
    decreases n,
{
    if n < 0x100_0000 {
        0
    } else {
        1 + sig_shift(n / 2)
    }
}

/// `n` rounded to 24 significant bits, to nearest with ties to even.
pub open spec fn spec_rne24(n: nat) -> nat {
    let p = pow2(sig_shift(n));
    let q = n / p;
    let r = n % p;
    if 2 * r > p || (2 * r == p && q % 2 == 1) {
        (q + 1) * p
    } else {
        q * p
    }
}

/// Round `n` to 24 significant bits, to nearest with ties to even.
pub fn rne24(n: u64) -> (r: u64)
    requires
        n < 0x8000_0000_0000_0000,
    ensures
        r == spec_rne24(n as nat),
        r <= 2 * n,
{
    proof {
        vstd::arithmetic::power2::lemma2_to64();
        vstd::arithmetic::power2::lemma2_to64_rest();
    }
    let mut q = n;
    let mut k: u64 = 0;
    while q >= 0x100_0000
        invariant
            n < 0x8000_0000_0000_0000,
            k <= 40,
            pow2(k as nat) > 0,
            q == (n as int) / (pow2(k as nat) as int),
            sig_shift(n as nat) == k + sig_shift(q as nat),
            k > 0 ==> pow2(k as nat) * 0x80_0000 <= n,
        decreases q,
    {
        proof {
            vstd::arithmetic::power2::lemma2_to64();
            vstd::arithmetic::power2::lemma2_to64_rest();
            vstd::arithmetic::div_mod::lemma_div_denominator(n as int, pow2(k as nat) as int, 2);
            vstd::arithmetic::power2::lemma_pow2_unfold((k + 1) as nat);
            vstd::arithmetic::div_mod::lemma_fundamental_div_mod(n as int, pow2(k as nat) as int);
            assert(pow2(k as nat) * q <= n) by (nonlinear_arith)
                requires
                    n == (pow2(k as nat) as int) * ((n as int) / (pow2(k as nat) as int)) + (n as int) % (pow2(k as nat) as int),
                    q == (n as int) / (pow2(k as nat) as int),
                    (n as int) % (pow2(k as nat) as int) >= 0,
            ;
            assert(pow2(k as nat) * 0x100_0000 <= pow2(k as nat) * q) by (nonlinear_arith)
                requires
                    q >= 0x100_0000,
                    pow2(k as nat) > 0,
            ;
            if k + 1 > 40 {
                vstd::arithmetic::power2::lemma_pow2_strictly_increases(40, (k + 1) as nat);
            }
            vstd::arithmetic::power2::lemma_pow2_pos((k + 1) as nat);
            vstd::bits::lemma_u64_shr_is_div(q, 1);
            assert(sig_shift(q as nat) == 1 + sig_shift((q / 2) as nat));
        }
        q = q >> 1;
        k = k + 1;
    }
    proof {
        vstd::arithmetic::power2::lemma2_to64();
        vstd::arithmetic::power2::lemma2_to64_rest();
        vstd::bits::lemma_u64_pow2_no_overflow(k as nat);
        vstd::bits::lemma_u64_shl_is_mul(1, k);
        vstd::arithmetic::div_mod::lemma_fundamental_div_mod(n as int, pow2(k as nat) as int);
        vstd::arithmetic::div_mod::lemma_mod_bound(n as int, pow2(k as nat) as int);
        assert(q * pow2(k as nat) <= n) by (nonlinear_arith)
            requires
                n == (pow2(k as nat) as int) * ((n as int) / (pow2(k as nat) as int)) + (n as int) % (pow2(k as nat) as int),
                q == (n as int) / (pow2(k as nat) as int),
                (n as int) % (pow2(k as nat) as int) >= 0,
        ;
    }
    assert(sig_shift(n as nat) == k);
    let p: u64 = 1 << k;
    let low = q * p;
    let rem = n - low;
    proof {
        assert(rem == (n as int) % (pow2(k as nat) as int)) by (nonlinear_arith)
            requires
                n == (pow2(k as nat) as int) * q + (n as int) % (pow2(k as nat) as int),
                low == q * pow2(k as nat),
                rem == n - low,
        ;
        assert(k == 0 ==> p == 1);
        assert(k > 0 ==> p <= n);
    }
    if 2 * rem > p || (2 * rem == p && q % 2 == 1) {
        assert(low + p <= 2 * n) by (nonlinear_arith)
            requires
                low <= n,
                p <= n || (p == 1 && rem == 0),
                2 * rem > p || (2 * rem == p && q % 2 == 1),
        ;
        assert(low + p == (q + 1) * pow2(k as nat)) by (nonlinear_arith)
            requires
                low == q * pow2(k as nat),
                p == pow2(k as nat),
        ;
        low + p
    } else {
        low
    }
}

/// `n / d` rounded to 24 significant bits, to nearest with ties to even, where `n / d` is at
/// least `2^23` (below that, it is rounded to an integer).
pub open spec fn spec_rne24_ratio(n: nat, d: nat) -> nat {
    let p = pow2(sig_shift(n / d));
    let q = n / (d * p);
    let r = n - q * d * p;
    if 2 * r > d * p || (2 * r == d * p && q % 2 == 1) {
        (q + 1) * p
    } else {
        q * p
    }
}

/// Round `n / d` to 24 significant bits, to nearest with ties to even.
pub fn rne24_ratio(n: u64, d: u64) -> (r: u64)
    requires
        n < 0x8000_0000_0000_0000,
        1 <= d <= 8,
    ensures
        r == spec_rne24_ratio(n as nat, d as nat),
        r <= 2 * n,
{
    proof {
        vstd::arithmetic::power2::lemma2_to64();
        vstd::arithmetic::power2::lemma2_to64_rest();
    }
    let t0 = n / d;
    let mut t = t0;
    let mut k: u64 = 0;
    while t >= 0x100_0000
        invariant
            n < 0x8000_0000_0000_0000,
            1 <= d <= 8,
            t0 == n / d,
            k <= 40,
            pow2(k as nat) > 0,
            t == (t0 as int) / (pow2(k as nat) as int),
            sig_shift(t0 as nat) == k + sig_shift(t as nat),
            k > 0 ==> pow2(k as nat) * 0x80_0000 <= t0,
        decreases t,
    {
        proof {
            vstd::arithmetic::power2::lemma2_to64();
            vstd::arithmetic::power2::lemma2_to64_rest();
            vstd::arithmetic::div_mod::lemma_div_denominator(t0 as int, pow2(k as nat) as int, 2);
            vstd::arithmetic::power2::lemma_pow2_unfold((k + 1) as nat);
            vstd::arithmetic::div_mod::lemma_fundamental_div_mod(t0 as int, pow2(k as nat) as int);
            assert(pow2(k as nat) * t <= t0) by (nonlinear_arith)
                requires
                    t0 == (pow2(k as nat) as int) * ((t0 as int) / (pow2(k as nat) as int)) + (t0 as int) % (
                    pow2(k as nat) as int),
                    t == (t0 as int) / (pow2(k as nat) as int),
                    (t0 as int) % (pow2(k as nat) as int) >= 0,
            ;
            assert(pow2(k as nat) * 0x100_0000 <= pow2(k as nat) * t) by (nonlinear_arith)
                requires
                    t >= 0x100_0000,
                    pow2(k as nat) > 0,
            ;
            if k + 1 > 40 {
                vstd::arithmetic::power2::lemma_pow2_strictly_increases(40, (k + 1) as nat);
            }
            vstd::arithmetic::power2::lemma_pow2_pos((k + 1) as nat);
            vstd::bits::lemma_u64_shr_is_div(t, 1);
            assert(sig_shift(t as nat) == 1 + sig_shift((t / 2) as nat));
        }
        t = t >> 1;
        k = k + 1;
    }
    proof {
        vstd::arithmetic::power2::lemma2_to64();
        vstd::arithmetic::power2::lemma2_to64_rest();
        vstd::bits::lemma_u64_pow2_no_overflow(k as nat);
        vstd::bits::lemma_u64_shl_is_mul(1, k);
        assert(sig_shift(t0 as nat) == k);
    }
    let p: u64 = 1 << k;
    proof {
        if k < 40 {
            vstd::arithmetic::power2::lemma_pow2_strictly_increases(k as nat, 40);
        }
        assert(p <= 0x100_0000_0000);
        vstd::arithmetic::div_mod::lemma_fundamental_div_mod(n as int, d as int);
        vstd::arithmetic::div_mod::lemma_mod_bound(n as int, d as int);
        // When bits were shifted out, d * p is at most n.
        assert(k > 0 ==> d * p <= n) by (nonlinear_arith)
            requires
                k > 0 ==> p * 0x80_0000 <= t0,
                n == d * t0 + n % d,
                n % d >= 0,
                1 <= d,
        ;
        assert(d * p <= 8 * 0x100_0000_0000) by (nonlinear_arith)
            requires
                d <= 8,
                p <= 0x100_0000_0000,
        ;
    }
    let dp = d * p;
    assert(dp >= 1) by (nonlinear_arith)
        requires
            dp == d * p,
            d >= 1,
            p >= 1,
    ;
    let q = n / dp;
    proof {
        vstd::arithmetic::div_mod::lemma_fundamental_div_mod(n as int, dp as int);
        vstd::arithmetic::div_mod::lemma_mod_bound(n as int, dp as int);
        assert(q * dp <= n) by (nonlinear_arith)
            requires
                n == dp * q + n % dp,
                n % dp >= 0,
        ;
    }
    let low = q * dp;
    let rem = n - low;
    assert(q * d * p == low) by (nonlinear_arith)
        requires
            low == q * dp,
            dp == d * p,
    ;
    assert(q * p <= q * dp) by (nonlinear_arith)
        requires
            dp == d * p,
            d >= 1,
            q >= 0,
            p >= 0,
    ;
    let base = q * p;
    if 2 * rem > dp || (2 * rem == dp && q % 2 == 1) {
        assert(base + p == (q + 1) * p) by (nonlinear_arith)
            requires
                base == q * p,
        ;
        assert(p <= n) by (nonlinear_arith)
            requires
                k > 0 ==> d * p <= n,
                k == 0 ==> p == 1,
                dp == d * p,
                d >= 1,
                2 * rem > dp || (2 * rem == dp && q % 2 == 1),
                rem == n - low,
                low <= n,
        ;
        base + p
    } else {
        base
    }
}

} // verus!
