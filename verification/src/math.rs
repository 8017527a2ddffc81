//! Integer helpers with exact contracts: powers of two, base-2 logarithms and
//! saturating arithmetic.

use vstd::prelude::*;

verus! {

/// `n` is a power of two (1, 2, 4, ...).
pub open spec fn is_pow2(n: nat) -> bool
    decreases n,
{
    if n == 0 {
        false
    } else if n == 1 {
        true
    } else {
        n % 2 == 0 && is_pow2(n / 2)
    }
}

/// Floor of the base-2 logarithm; 0 for 0 and 1.
pub open spec fn log2(n: nat) -> nat
    decreases n,
{
    if n <= 1 {
        0
    } else {
        1 + log2(n / 2)
    }
}

/// `r` is the least power of two that is at least `n` (1 for 0).
pub open spec fn is_next_pow2(n: nat, r: nat) -> bool {
    is_pow2(r) && r >= n && (r == 1 || r / 2 < n)
}

/// Whether `n` is a power of two.
pub fn is_power_of_two(n: usize) -> (r: bool)
    ensures
        r == is_pow2(n as nat),
{
    let mut m = n;
    while m > 1 && m % 2 == 0
        invariant
            is_pow2(m as nat) == is_pow2(n as nat),
        decreases m,
    {
        m = m / 2;
    }
    m == 1
}

/// Floor of the base-2 logarithm of a non-zero `n`.
pub fn ilog2(n: usize) -> (r: usize)
    requires
        n > 0,
    ensures
        r as nat == log2(n as nat),
        r < 64,
{
    let mut m = n;
    let mut r: usize = 0;
    while m > 1
        invariant
            m >= 1,
            r + log2(m as nat) == log2(n as nat),
            r + m <= n,
            n <= usize::MAX,
        decreases m,
    {
        m = m / 2;
        r = r + 1;
    }
    proof {
        lemma_log2_bound(n as nat);
    }
    r
}

/// `2^k`, by doubling.
pub open spec fn two_to(k: nat) -> nat
    decreases k,
{
    if k == 0 {
        1
    } else {
        2 * two_to((k - 1) as nat)
    }
}

/// `log2(n) < 64` for every `n` that fits in a `u64`.
pub proof fn lemma_log2_bound(n: nat)
    requires
        n <= u64::MAX,
    ensures
        log2(n) < 64,
{
    assert(two_to(64) == 0x1_0000_0000_0000_0000) by {
        reveal_with_fuel(two_to, 65);
    }
    lemma_log2_lt(n, 64);
}

proof fn lemma_log2_lt(n: nat, k: nat)
    requires
        n < two_to(k),
        k > 0,
    ensures
        log2(n) < k,
    decreases k,
{
    if n <= 1 {
    } else if k == 1 {
        assert(two_to(1) == 2) by {
            reveal_with_fuel(two_to, 2);
        }
    } else {
        lemma_log2_lt(n / 2, (k - 1) as nat);
    }
}

/// The least power of two that is at least `n` (1 for 0), as
/// `usize::next_power_of_two` computes it where it does not overflow.
pub fn next_power_of_two(n: usize) -> (r: usize)
    requires
        n <= usize::MAX / 2 + 1,
    ensures
        is_next_pow2(n as nat, r as nat),
{
    let mut p: usize = 1;
    while p < n
        invariant
            is_pow2(p as nat),
            p >= 1,
            p == 1 || p / 2 < n,
            n <= usize::MAX / 2 + 1,
        decreases usize::MAX - p,
    {
        p = p * 2;
        assert((p / 2) * 2 == p);
    }
    p
}

/// Ceiling of the base-2 logarithm: the exponent of the least power of two
/// that is at least `n`; 0 for 0 and 1.
pub open spec fn ceil_log2(n: nat) -> nat
    decreases n,
{
    if n <= 1 {
        0
    } else {
        1 + ceil_log2(((n + 1) / 2) as nat)
    }
}

/// The least power of two that is at least `n` has base-2 logarithm
/// `ceil_log2(n)`.
pub proof fn lemma_log2_of_next_pow2(n: nat, p: nat)
    requires
        is_next_pow2(n, p),
    ensures
        log2(p) == ceil_log2(n),
    decreases n,
{
    if n <= 1 {
        if p != 1 {
            assert(p % 2 == 0 && p / 2 >= 1);
        }
    } else {
        assert(p >= 2);
        assert(p % 2 == 0 && is_pow2(p / 2));
        let m = ((n + 1) / 2) as nat;
        assert(p / 2 >= m);
        assert(p / 2 == 1 || (p / 2) / 2 < m);
        lemma_log2_of_next_pow2(m, p / 2);
    }
}

/// Saturating product of two `usize` values.
pub fn saturating_mul(a: usize, b: usize) -> (r: usize)
    ensures
        r == if a * b > usize::MAX {
            usize::MAX as int
        } else {
            a * b
        },
{
    if a == 0 {
        0
    } else if b > usize::MAX / a {
        proof {
            assert(a * b > usize::MAX) by (nonlinear_arith)
                requires
                    a > 0,
                    b > usize::MAX / a,
            ;
        }
        usize::MAX
    } else {
        proof {
            assert(a * b <= usize::MAX) by (nonlinear_arith)
                requires
                    a > 0,
                    b <= usize::MAX / a,
            ;
        }
        a * b
    }
}

/// Saturating sum of two `usize` values.
pub fn saturating_add(a: usize, b: usize) -> (r: usize)
    ensures
        r == if a + b > usize::MAX {
            usize::MAX as int
        } else {
            a + b
        },
{
    if a > usize::MAX - b {
        usize::MAX
    } else {
        a + b
    }
}

/// The larger of two `usize` values.
pub fn max_usize(a: usize, b: usize) -> (r: usize)
    ensures
        r == if a >= b {
            a
        } else {
            b
        },
{
    if a >= b {
        a
    } else {
        b
    }
}

} // verus!
