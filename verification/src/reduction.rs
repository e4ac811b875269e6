//! Modular reduction specialized to Mersenne moduli M_p = 2^p - 1.
//!
//! Because 2^p = 1 (mod M_p), a value can be reduced by repeatedly adding
//! its bits above position p to its bits below position p.  `mod_mp` is
//! proved to agree exactly with the generic remainder and to return a
//! value strictly below M_p.

use vstd::prelude::*;
use vstd::arithmetic::div_mod::{
    lemma_fundamental_div_mod, lemma_mod_bound, lemma_mod_multiples_vanish, lemma_mod_self_0,
    lemma_mod_twice, lemma_small_mod,
};
use vstd::arithmetic::power2::{lemma2_to64, lemma_pow2_pos, lemma_pow2_strictly_increases, pow2};
use num_bigint::BigUint;
use crate::bignum::{
    big_add, big_and_mask, big_clone, big_eq, big_from_u64, big_lt, big_mod, big_mul, big_shl,
    big_shr, big_sub, big_value, is_low_bit_mask,
};

verus! {

/// The Mersenne number M_p = 2^p - 1.
pub open spec fn mersenne(p: nat) -> int {
    pow2(p) - 1
}

/// What reduction modulo M_p returns: the Euclidean remainder.
pub open spec fn reduce_spec(k: int, p: nat) -> int {
    k % mersenne(p)
}

/// M_p is at least 1 for every positive p.
pub proof fn lemma_mersenne_pos(p: nat)
    requires
        p >= 1,
    ensures
        mersenne(p) >= 1,
{
    lemma2_to64();
    if p > 1 {
        lemma_pow2_strictly_increases(1, p);
    }
}

/// The bit-splitting identity behind Mersenne reduction: splitting v at bit
/// position p and adding the parts preserves the residue modulo 2^p - 1.
proof fn lemma_split_congruent(v: nat, p: nat)
    requires
        p >= 1,
    ensures
        ((v / pow2(p) + v % pow2(p)) as int) % mersenne(p) == (v as int) % mersenne(p),
{
    let t = pow2(p) as int;
    let m = mersenne(p);
    lemma_mersenne_pos(p);
    let h = v as int / t;
    let l = v as int % t;
    lemma_pow2_pos(p);
    lemma_fundamental_div_mod(v as int, t);
    lemma_mod_bound(v as int, t);
    assert(t * h == m * h + h) by (nonlinear_arith)
        requires
            t == m + 1,
    ;
    assert(v as int == m * h + (h + l));
    lemma_mod_multiples_vanish(h, h + l, m);
}

/// A value that is congruent to k and lies in [0, m) is exactly k mod m.
proof fn lemma_congruent_bounded_is_mod(x: int, k: int, m: int)
    requires
        m > 0,
        0 <= x < m,
        x % m == k % m,
    ensures
        x == k % m,
{
    lemma_small_mod(x as nat, m as nat);
}

/// Reduction modulo M_p is idempotent: reducing an already reduced value
/// changes nothing.
pub proof fn lemma_reduce_idempotent(k: int, p: nat)
    requires
        p >= 1,
    ensures
        reduce_spec(reduce_spec(k, p), p) == reduce_spec(k, p),
{
    lemma_mersenne_pos(p);
    lemma_mod_twice(k, mersenne(p));
}

/// Reduce k modulo M_p = 2^p - 1 by bit splitting.
///
/// While the value still has bits at or above position p, the high part is
/// shifted down and added to the low part.  The loop is capped at a fixed
/// iteration count as a defensive fallback; past the cap the generic
/// remainder is taken instead, so the result is exact either way.
pub fn mod_mp(k: &BigUint, p: u64) -> (r: BigUint)
    requires
        p >= 1,
    ensures
        big_value(r) == reduce_spec(big_value(*k) as int, p as nat),
        big_value(r) < mersenne(p as nat),
{
    let ghost m: int = mersenne(p as nat);
    proof {
        lemma_mersenne_pos(p as nat);
    }
    let one = big_from_u64(1);
    let shifted = big_shl(&one, p);
    proof {
        lemma_pow2_pos(p as nat);
    }
    let mp = big_sub(&shifted, &one);
    let zero = big_from_u64(0);
    if big_eq(k, &zero) {
        proof {
            lemma_small_mod(0, m as nat);
        }
        return zero;
    }
    if big_eq(k, &mp) {
        proof {
            lemma_mod_self_0(m);
        }
        return zero;
    }
    if big_lt(k, &mp) {
        proof {
            lemma_small_mod(big_value(*k), m as nat);
        }
        return big_clone(k);
    }
    let mut result = big_clone(k);
    let mut iterations: u64 = 0;
    proof {
        assert(pow2(p as nat) == big_value(mp) + 1);
        assert(is_low_bit_mask(big_value(mp)));
    }
    while big_lt(&mp, &result) && iterations < 1000
        invariant
            p >= 1,
            m == mersenne(p as nat),
            m >= 1,
            big_value(mp) == m,
            is_low_bit_mask(big_value(mp)),
            iterations <= 1000,
            big_value(result) as int % m == big_value(*k) as int % m,
        decreases 1000 - iterations,
    {
        let high = big_shr(&result, p);
        let low = big_and_mask(&result, &mp);
        proof {
            lemma_split_congruent(big_value(result), p as nat);
        }
        result = big_add(&high, &low);
        iterations = iterations + 1;
    }
    if iterations >= 1000 {
        proof {
            lemma_mod_bound(big_value(*k) as int, m);
        }
        return big_mod(k, &mp);
    }
    if big_eq(&result, &mp) {
        proof {
            lemma_mod_self_0(m);
        }
        big_from_u64(0)
    } else {
        proof {
            lemma_congruent_bounded_is_mod(big_value(result) as int, big_value(*k) as int, m);
        }
        result
    }
}

/// One Lucas-Lehmer step: (s^2 - 2) mod M_p, with the subtraction carried
/// out modulo M_p so that s in {0, 1} cannot underflow.
pub fn square_and_subtract_two_mod_mp(s: &BigUint, p: u64) -> (r: BigUint)
    requires
        p >= 2,
    ensures
        big_value(r) == (big_value(*s) * big_value(*s) - 2) % mersenne(p as nat),
        big_value(r) < mersenne(p as nat),
{
    let ghost m: int = mersenne(p as nat);
    proof {
        lemma2_to64();
        if p > 2 {
            lemma_pow2_strictly_increases(2, p as nat);
        }
        assert(m >= 3);
    }
    let two = big_from_u64(2);
    let squared = big_mul(s, s);
    if big_lt(&squared, &two) {
        let one = big_from_u64(1);
        let shifted = big_shl(&one, p);
        proof {
            lemma_pow2_pos(p as nat);
        }
        let mp = big_sub(&shifted, &one);
        let lifted = big_add(&squared, &mp);
        let minus_two = big_sub(&lifted, &two);
        proof {
            lemma_mod_multiples_vanish(
                1,
                big_value(*s) * big_value(*s) - 2,
                m,
            );
        }
        mod_mp(&minus_two, p)
    } else {
        let minus_two = big_sub(&squared, &two);
        mod_mp(&minus_two, p)
    }
}

} // verus!
