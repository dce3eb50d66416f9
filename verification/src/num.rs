//! Integer helpers: powers of ten and integer square roots.
use vstd::prelude::*;

verus! {

/// `10^d`.
pub open spec fn pow10(d: nat) -> nat
    decreases d,
{
    if d == 0 {
        1
    } else {
        10 * pow10((d - 1) as nat)
    }
}

pub proof fn lemma_pow10_pos(d: nat)
    ensures
        pow10(d) >= 1,
    decreases d,
{
    if d > 0 {
        lemma_pow10_pos((d - 1) as nat);
    }
}

pub proof fn lemma_pow10_mono(a: nat, b: nat)
    requires
        a <= b,
    ensures
        pow10(a) <= pow10(b),
    decreases b,
{
    if a < b {
        lemma_pow10_mono(a, (b - 1) as nat);
        lemma_pow10_pos((b - 1) as nat);
    }
}

/// `10^d` as a `u64` (`10u64.pow(d)`), for exponents whose power fits.
pub fn pow10_u64(d: u32) -> (r: u64)
    requires
        pow10(d as nat) <= u64::MAX,
    ensures
        r == pow10(d as nat),
{
    let mut r: u64 = 1;
    let mut i: u32 = 0;
    while i < d
        invariant
            i <= d,
            r == pow10(i as nat),
            pow10(d as nat) <= u64::MAX,
        decreases d - i,
    {
        proof {
            lemma_pow10_mono((i + 1) as nat, d as nat);
        }
        r = r * 10;
        i = i + 1;
    }
    r
}

/// A product of two `u64` values fits in a `u128`.
pub proof fn lemma_mul_u64(a: u64, b: u64)
    ensures
        0 <= a * b <= 0xFFFF_FFFF_FFFF_FFFE_0000_0000_0000_0001u128,
{
    assert(0 <= a * b <= 0xFFFF_FFFF_FFFF_FFFFu128 * 0xFFFF_FFFF_FFFF_FFFFu128) by (nonlinear_arith)
        requires
            a <= 0xFFFF_FFFF_FFFF_FFFFu64,
            b <= 0xFFFF_FFFF_FFFF_FFFFu64,
    ;
}

/// `r` is the integer square root of `n`.
pub open spec fn is_isqrt(n: nat, r: nat) -> bool {
    r * r <= n && n < (r + 1) * (r + 1)
}

/// Integer square root of a `u128` (largest `r` with `r * r <= n`).
pub fn isqrt_u128(n: u128) -> (r: u128)
    ensures
        is_isqrt(n as nat, r as nat),
        r <= u64::MAX,
{
    // binary search on [lo, hi): lo*lo <= n < hi*hi
    let mut lo: u128 = 0;
    let mut hi: u128 = 0x1_0000_0000_0000_0000;
    assert(hi * hi > u128::MAX) by (nonlinear_arith)
        requires
            hi == 0x1_0000_0000_0000_0000u128,
    ;
    while hi - lo > 1
        invariant
            lo < hi,
            hi <= 0x1_0000_0000_0000_0000,
            lo * lo <= n,
            n < hi * hi,
        decreases hi - lo,
    {
        let mid = lo + (hi - lo) / 2;
        assert(lo < mid < hi);
        assert(mid * mid <= hi * hi) by (nonlinear_arith)
            requires
                mid < hi,
        ;
        if mid <= 0xFFFF_FFFF_FFFF_FFFF && {
            assert(mid * mid <= 0xFFFF_FFFF_FFFF_FFFFu128 * 0xFFFF_FFFF_FFFF_FFFFu128) by (nonlinear_arith)
                requires
                    mid <= 0xFFFF_FFFF_FFFF_FFFFu128,
            ;
            mid * mid <= n
        } {
            lo = mid;
        } else {
            if mid > 0xFFFF_FFFF_FFFF_FFFF {
                assert(mid * mid > u128::MAX) by (nonlinear_arith)
                    requires
                        mid > 0xFFFF_FFFF_FFFF_FFFFu128,
                ;
            }
            hi = mid;
        }
    }
    assert(hi == lo + 1);
    lo
}

} // verus!
