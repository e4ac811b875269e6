//! Miller-Rabin strong-pseudoprime testing over a Mersenne modulus.
//!
//! One round draws a random base and is decided by `miller_rabin_round`,
//! whose outcome is pinned down exactly for every base.  The test as a
//! whole draws its bases at random and is bounded by a wall-clock
//! timeout, so its boolean result carries no promise: a `false` may mean
//! a compositeness witness was found or that time ran out.

use vstd::prelude::*;
use vstd::arithmetic::power::pow;
use vstd::arithmetic::power2::{
    lemma2_to64, lemma_pow2_adds, lemma_pow2_strictly_increases, pow2,
};
use vstd::arithmetic::div_mod::{lemma_fundamental_div_mod, lemma_mod_multiples_vanish};
use std::time::{Duration, Instant};
use num_bigint::BigUint;
use crate::bignum::{
    big_clone, big_div, big_eq, big_from_u64, big_mod, big_modpow, big_mul, big_random_range,
    big_shl, big_sub, big_value, rng_new,
};
use crate::clock::{duration_greater, instant_elapsed};
use crate::primes::lemma_multiple_mod_zero;
use crate::reduction::mersenne;

verus! {

/// Whether the squaring chain, allowed n more squarings of x, reaches
/// m - 1 before it hits 1.  Reaching m - 1 means the round passes;
/// hitting 1 first, or running out of squarings, means the base
/// witnesses compositeness.
pub open spec fn chain_reaches(x: int, m: int, n: nat) -> bool
    decreases n,
{
    if n == 0 {
        false
    } else {
        let y = (x * x) % m;
        if y == m - 1 {
            true
        } else if y == 1 {
            false
        } else {
            chain_reaches(y, m, (n - 1) as nat)
        }
    }
}

/// Whether base a passes one Miller-Rabin round for modulus m, where
/// m - 1 = 2^s * d with d odd: a^d mod m must be 1 or m - 1, or one of
/// the s - 1 squarings of a^d must reach m - 1.
pub open spec fn round_passes(a: int, d: nat, s: nat, m: int) -> bool {
    let x = pow(a, d) % m;
    x == 1 || x == m - 1 || chain_reaches(x, m, (s - 1) as nat)
}

/// Run one Miller-Rabin round for base a and modulus m, with
/// m - 1 = 2^s * d.  The outcome is exactly `round_passes`.
pub fn miller_rabin_round(
    a: &BigUint,
    d: &BigUint,
    s: u64,
    m: &BigUint,
    m_minus_1: &BigUint,
) -> (r: bool)
    requires
        big_value(*m) >= 3,
        big_value(*m_minus_1) == big_value(*m) - 1,
        s >= 1,
    ensures
        r == round_passes(big_value(*a) as int, big_value(*d), s as nat, big_value(*m) as int),
{
    let x0 = big_modpow(a, d, m);
    let one = big_from_u64(1);
    if big_eq(&x0, &one) {
        return true;
    }
    if big_eq(&x0, m_minus_1) {
        return true;
    }
    let mut x = x0;
    let mut j: u64 = 0;
    while j < s - 1
        invariant
            big_value(*m) >= 3,
            big_value(*m_minus_1) == big_value(*m) - 1,
            big_value(one) == 1,
            s >= 1,
            j <= s - 1,
            round_passes(big_value(*a) as int, big_value(*d), s as nat, big_value(*m) as int)
                == chain_reaches(big_value(x) as int, big_value(*m) as int, (s - 1 - j) as nat),
        decreases s - 1 - j,
    {
        let sq = big_mul(&x, &x);
        let y = big_mod(&sq, m);
        if big_eq(&y, m_minus_1) {
            return true;
        }
        if big_eq(&y, &one) {
            return false;
        }
        proof {
            assert(chain_reaches(big_value(x) as int, big_value(*m) as int, (s - 1 - j) as nat)
                == chain_reaches(
                big_value(y) as int,
                big_value(*m) as int,
                (s - 1 - (j + 1)) as nat,
            ));
        }
        x = y;
        j = j + 1;
    }
    false
}

/// Split m - 1 = 2^p - 2 into 2^s * d with d odd.  For a Mersenne
/// modulus s is always 1, but the split is computed, as stated, by
/// repeated halving.
fn split_odd_part(m_minus_1: &BigUint, p: u64) -> (r: (u64, BigUint))
    requires
        p >= 2,
        big_value(*m_minus_1) == pow2(p as nat) - 2,
    ensures
        pow2(r.0 as nat) * big_value(r.1) == big_value(*m_minus_1),
        big_value(r.1) % 2 == 1,
        1 <= r.0 < p,
{
    let two = big_from_u64(2);
    let zero = big_from_u64(0);
    let mut s_count: u64 = 0;
    let mut d = big_clone(m_minus_1);
    proof {
        lemma2_to64();
        lemma_pow2_strictly_increases(1, p as nat);
    }
    loop
        invariant
            p >= 2,
            big_value(two) == 2,
            big_value(zero) == 0,
            big_value(*m_minus_1) == pow2(p as nat) - 2,
            big_value(d) >= 1,
            pow2(s_count as nat) * big_value(d) == big_value(*m_minus_1),
            s_count < p,
        ensures
            pow2(s_count as nat) * big_value(d) == big_value(*m_minus_1),
            big_value(d) % 2 == 1,
            s_count < p,
        decreases big_value(d),
    {
        let rem = big_mod(&d, &two);
        if !big_eq(&rem, &zero) {
            break;
        }
        let half = big_div(&d, &two);
        proof {
            lemma_fundamental_div_mod(big_value(d) as int, 2);
            assert(pow2((s_count + 1) as nat) == 2 * pow2(s_count as nat)) by {
                lemma_pow2_adds(1, s_count as nat);
                lemma2_to64();
            }
            assert(pow2((s_count + 1) as nat) * big_value(half) == pow2(s_count as nat)
                * big_value(d)) by (nonlinear_arith)
                requires
                    big_value(d) == 2 * big_value(half),
                    pow2((s_count + 1) as nat) == 2 * pow2(s_count as nat),
            ;
            assert(pow2((s_count + 1) as nat) <= big_value(*m_minus_1)) by (nonlinear_arith)
                requires
                    pow2((s_count + 1) as nat) * big_value(half) == big_value(*m_minus_1),
                    big_value(half) >= 1,
                    pow2((s_count + 1) as nat) >= 0,
            ;
            assert(s_count + 1 < p) by {
                if s_count + 1 >= p {
                    lemma_pow2_strictly_increases((p - 1) as nat, (s_count + 1) as nat);
                    if s_count + 1 > p {
                        lemma_pow2_strictly_increases(p as nat, (s_count + 1) as nat);
                    }
                    lemma_pow2_strictly_increases((p - 1) as nat, p as nat);
                }
            }
        }
        d = half;
        s_count = s_count + 1;
    }
    proof {
        if s_count == 0 {
            lemma2_to64();
            assert(pow2(s_count as nat) == 1);
            assert(pow2(s_count as nat) * big_value(d) == big_value(d)) by (nonlinear_arith)
                requires
                    pow2(s_count as nat) == 1,
            ;
            assert(big_value(d) == pow2(p as nat) - 2);
            assert(pow2(p as nat) == 2 * pow2((p - 1) as nat)) by {
                lemma_pow2_adds(1, (p - 1) as nat);
            }
            assert(big_value(d) == 2 * (pow2((p - 1) as nat) - 1));
            lemma_multiple_mod_zero(pow2((p - 1) as nat) - 1, 2);
        }
    }
    (s_count, d)
}

/// Miller-Rabin test for M_p = 2^p - 1 with k rounds of random bases,
/// stopped early when the elapsed time since `start_time` exceeds
/// `timeout`.
///
/// Each round draws a base uniformly from [2, M_p - 1), as the
/// strong-pseudoprime test prescribes (for p = 2 that range is empty, so
/// the one possible base is drawn from [2, M_p)), and is decided by
/// `miller_rabin_round`.  With no rounds requested the test passes
/// outright.  A `true` result means every drawn base passed its round,
/// so with k >= 1 some base in range passed; more than that cannot be
/// promised of the boolean, since the bases are random and a `false`
/// collapses "a witness was found" and "time ran out" into one outcome.
/// The per-base behaviour is pinned down in `miller_rabin_round`: for a
/// Mersenne modulus the odd-part split is always M_p - 1 = 2^1 * d with
/// d = 2^(p-1) - 1, which is the round the witness clause below names.
pub fn miller_rabin_test(p: u64, k: u32, start_time: Instant, timeout: Duration) -> (r: bool)
    requires
        p >= 2,
    ensures
        k == 0 ==> r,
        r ==> k == 0 || exists|a: int|
            2 <= a < mersenne(p as nat) && #[trigger] round_passes(
                a,
                (pow2((p - 1) as nat) - 1) as nat,
                1,
                mersenne(p as nat),
            ),
{
    let one = big_from_u64(1);
    let shifted = big_shl(&one, p);
    proof {
        lemma2_to64();
        if p > 2 {
            lemma_pow2_strictly_increases(2, p as nat);
        }
    }
    let m = big_sub(&shifted, &one);
    let m_minus_1 = big_sub(&m, &one);
    let (s_count, d) = split_odd_part(&m_minus_1, p);
    let ghost q: int = pow2((p - 1) as nat) - 1;
    proof {
        // M_p - 1 = 2 * (2^(p-1) - 1) with an odd cofactor, so the split
        // computed by repeated halving can only be s = 1, d = 2^(p-1) - 1.
        lemma2_to64();
        assert(pow2(p as nat) == 2 * pow2((p - 1) as nat)) by {
            lemma_pow2_adds(1, (p - 1) as nat);
        }
        assert(big_value(m_minus_1) == 2 * q);
        assert(pow2(s_count as nat) == 2 * pow2((s_count - 1) as nat)) by {
            lemma_pow2_adds(1, (s_count - 1) as nat);
        }
        assert(pow2((s_count - 1) as nat) * big_value(d) == q) by (nonlinear_arith)
            requires
                pow2(s_count as nat) * big_value(d) == big_value(m_minus_1),
                pow2(s_count as nat) == 2 * pow2((s_count - 1) as nat),
                big_value(m_minus_1) == 2 * q,
        ;
        if s_count > 1 {
            assert(pow2((s_count - 1) as nat) == 2 * pow2((s_count - 2) as nat)) by {
                lemma_pow2_adds(1, (s_count - 2) as nat);
            }
            assert(q == 2 * (pow2((s_count - 2) as nat) * big_value(d)) as int) by (nonlinear_arith)
                requires
                    pow2((s_count - 1) as nat) * big_value(d) == q,
                    pow2((s_count - 1) as nat) == 2 * pow2((s_count - 2) as nat),
            ;
            lemma_multiple_mod_zero((pow2((s_count - 2) as nat) * big_value(d)) as int, 2);
            assert(pow2((p - 1) as nat) == 2 * pow2((p - 2) as nat)) by {
                lemma_pow2_adds(1, (p - 2) as nat);
            }
            lemma_mod_multiples_vanish(pow2((p - 2) as nat) as int, -1, 2);
            assert((-1int) % 2int == 1);
            assert(false);
        }
        assert(s_count == 1);
        assert(big_value(d) as int == q) by (nonlinear_arith)
            requires
                pow2((s_count - 1) as nat) * big_value(d) == q,
                pow2((s_count - 1) as nat) == 1,
        ;
        assert(big_value(m) as int == mersenne(p as nat));
    }
    let two = big_from_u64(2);
    let upper: &BigUint = if p == 2 { &m } else { &m_minus_1 };
    let mut rng = rng_new();
    let mut i: u32 = 0;
    while i < k
        invariant
            p >= 2,
            i <= k,
            big_value(m) >= 3,
            big_value(m) as int == mersenne(p as nat),
            big_value(m_minus_1) == big_value(m) - 1,
            big_value(two) == 2,
            2 < big_value(*upper) <= big_value(m),
            s_count == 1,
            big_value(d) as int == pow2((p - 1) as nat) - 1,
            i > 0 ==> exists|a: int|
                2 <= a < mersenne(p as nat) && #[trigger] round_passes(
                    a,
                    (pow2((p - 1) as nat) - 1) as nat,
                    1,
                    mersenne(p as nat),
                ),
        decreases k - i,
    {
        let elapsed = instant_elapsed(&start_time);
        if duration_greater(&elapsed, &timeout) {
            return false;
        }
        let a = big_random_range(&mut rng, &two, upper);
        if !miller_rabin_round(&a, &d, s_count, &m, &m_minus_1) {
            return false;
        }
        proof {
            assert(big_value(d) == (pow2((p - 1) as nat) - 1) as nat);
            assert(round_passes(
                big_value(a) as int,
                (pow2((p - 1) as nat) - 1) as nat,
                1,
                mersenne(p as nat),
            ));
            assert(2 <= big_value(a) as int);
            assert((big_value(a) as int) < mersenne(p as nat));
        }
        i = i + 1;
    }
    true
}

} // verus!
