//! Small-factor search for Mersenne numbers.
//!
//! Every prime factor q of M_p (p an odd prime) has the form q = 2kp + 1
//! and satisfies q = 1 or 7 (mod 8).  The search enumerates k upward,
//! keeps the candidates that pass both restrictions and are prime, and
//! tests divisibility by checking 2^p = 1 (mod q).

use vstd::prelude::*;
use vstd::arithmetic::power::pow;
use vstd::arithmetic::power2::lemma_pow2_pos;
use crate::bignum::{big_eq, big_from_u64, big_modpow, big_shl, big_sub};
use crate::primes::{is_prime, is_prime_spec};
use crate::reduction::mersenne;

verus! {

/// Whether q = 2kp + 1 counts as a small factor of M_p: it must carry the
/// residue restriction of factors of Mersenne numbers (q = 1 or 7 mod 8),
/// be prime itself, divide M_p (equivalently 2^p = 1 mod q), and not be
/// M_p itself.
pub open spec fn qualifies(q: int, p: nat) -> bool {
    &&& (q % 8 == 1 || q % 8 == 7)
    &&& is_prime_spec(q)
    &&& pow(2, p) % q == 1
    &&& q != mersenne(p)
}

/// No k in the searched range yields a qualifying factor.
pub open spec fn no_small_factor(p: nat, limit: int) -> bool {
    forall|k: int|
        1 <= k && 2 * k * p < limit ==> !#[trigger] qualifies(2 * k * (p as int) + 1, p)
}

/// Search for a small factor of M_p among candidates 2kp + 1 with
/// 2kp < limit, in increasing order.
///
/// Returns the smallest qualifying candidate, `None` when the range holds
/// none, and `None` immediately when p is not prime (the factor form is
/// only valid for prime p).
pub fn check_small_factors(p: u64, limit: u64) -> (r: Option<u64>)
    ensures
        match r {
            Option::None => !is_prime_spec(p as int) || no_small_factor(p as nat, limit as int),
            Option::Some(q) => {
                &&& is_prime_spec(p as int)
                &&& exists|k: int|
                    1 <= k && 2 * k * (p as int) < limit && q == 2 * k * (p as int) + 1
                        && #[trigger] qualifies(2 * k * (p as int) + 1, p as nat)
                &&& forall|k2: int|
                    1 <= k2 && 2 * k2 * (p as int) + 1 < q ==> !#[trigger] qualifies(
                        2 * k2 * (p as int) + 1,
                        p as nat,
                    )
            },
        },
{
    if !is_prime(p) {
        return Option::None;
    }
    let mut k: u64 = 1;
    loop
        invariant
            is_prime_spec(p as int),
            p >= 2,
            1 <= k,
            forall|k2: int|
                1 <= k2 < k ==> !#[trigger] qualifies(2 * k2 * (p as int) + 1, p as nat),
        ensures
            2 * (k as int) * (p as int) >= limit,
            forall|k2: int|
                1 <= k2 < k ==> !#[trigger] qualifies(2 * k2 * (p as int) + 1, p as nat),
        decreases limit as int - k,
    {
        proof {
            assert((k as int) * (p as int) < 0x1_0000_0000_0000_0000_0000_0000_0000_0000int)
                by (nonlinear_arith)
                requires
                    0 <= k < 0x1_0000_0000_0000_0000,
                    0 <= p < 0x1_0000_0000_0000_0000,
            ;
        }
        let kp: u128 = (k as u128) * (p as u128);
        if kp >= 0x8000_0000_0000_0000u128 {
            proof {
                assert(2 * (k as int) * (p as int) >= limit) by (nonlinear_arith)
                    requires
                        (k as int) * (p as int) >= 0x8000_0000_0000_0000int,
                        limit <= 0xFFFF_FFFF_FFFF_FFFFu64,
                ;
            }
            break;
        }
        let prod: u64 = 2 * (kp as u64);
        proof {
            assert(prod == 2 * (k as int) * (p as int)) by (nonlinear_arith)
                requires
                    kp == (k as int) * (p as int),
                    0 <= kp < 0x8000_0000_0000_0000int,
                    prod == 2 * (kp as u64),
                    kp as u64 == kp,
            ;
        }
        if prod >= limit {
            break;
        }
        proof {
            assert(2 * (k as int) <= prod && k <= prod) by (nonlinear_arith)
                requires
                    p >= 1,
                    k >= 1,
                    prod == 2 * (k as int) * (p as int),
            ;
        }
        let q: u64 = prod + 1;
        let q_mod8: u64 = q % 8;
        if (q_mod8 == 1 || q_mod8 == 7) && is_prime(q) {
            let two = big_from_u64(2);
            let pb = big_from_u64(p);
            let qb = big_from_u64(q);
            let remainder = big_modpow(&two, &pb, &qb);
            let one = big_from_u64(1);
            if big_eq(&remainder, &one) {
                let shifted = big_shl(&one, p);
                proof {
                    lemma_pow2_pos(p as nat);
                }
                let mp = big_sub(&shifted, &one);
                if !big_eq(&qb, &mp) {
                    proof {
                        assert(qualifies(2 * (k as int) * (p as int) + 1, p as nat));
                        assert forall|k2: int|
                            1 <= k2 && 2 * k2 * (p as int) + 1 < q implies !#[trigger] qualifies(
                            2 * k2 * (p as int) + 1,
                            p as nat,
                        ) by {
                            assert(k2 < k) by (nonlinear_arith)
                                requires
                                    2 * k2 * (p as int) + 1 < 2 * (k as int) * (p as int) + 1,
                                    p >= 1,
                            ;
                        }
                    }
                    return Option::Some(q);
                }
            }
        }
        proof {
            assert(!qualifies(2 * (k as int) * (p as int) + 1, p as nat));
            assert forall|k2: int| 1 <= k2 < k + 1 implies !#[trigger] qualifies(
                2 * k2 * (p as int) + 1,
                p as nat,
            ) by {
                if k2 == k {
                    assert(!qualifies(2 * k2 * (p as int) + 1, p as nat));
                }
            }
        }
        k = k + 1;
    }
    proof {
        assert forall|k2: int| 1 <= k2 && 2 * k2 * (p as int) < limit implies !#[trigger] qualifies(
            2 * k2 * (p as int) + 1,
            p as nat,
        ) by {
            if k2 >= k {
                assert(2 * k2 * (p as int) >= 2 * (k as int) * (p as int)) by (nonlinear_arith)
                    requires
                        k2 >= k,
                        p >= 1,
                        k >= 1,
                ;
            }
        }
    }
    Option::None
}

} // verus!
