//! The Lucas-Lehmer test, the definitive primality test for Mersenne
//! numbers.

use vstd::prelude::*;
use num_bigint::BigUint;
use crate::bignum::{big_eq, big_from_u64, big_value};
use crate::reduction::{mersenne, square_and_subtract_two_mod_mp};

verus! {

/// The Lucas-Lehmer sequence for exponent p: s_0 = 4 and
/// s_{n+1} = (s_n^2 - 2) mod M_p.
pub open spec fn lucas_lehmer_seq(p: nat, n: nat) -> int
    decreases n,
{
    if n == 0 {
        4
    } else {
        let prev = lucas_lehmer_seq(p, (n - 1) as nat);
        (prev * prev - 2) % mersenne(p)
    }
}

/// The verdict the test reports for exponent p.
///
/// For p >= 3 this is the Lucas-Lehmer criterion: M_p is prime if and only
/// if s_{p-2} = 0.  Exponents below 2 are rejected.  p = 2 is answered
/// directly: M_2 = 3 is prime, while the raw recurrence, run for zero
/// steps, would leave s = 4 and misreport it.
pub open spec fn lucas_lehmer_verdict(p: nat) -> bool {
    if p < 2 {
        false
    } else if p == 2 {
        true
    } else {
        lucas_lehmer_seq(p, (p - 2) as nat) == 0
    }
}

/// Run the Lucas-Lehmer test for M_p: start at s = 4, square and subtract
/// two modulo M_p for p - 2 iterations, and report whether s ended at 0.
pub fn lucas_lehmer_test(p: u64) -> (r: bool)
    ensures
        r == lucas_lehmer_verdict(p as nat),
{
    if p < 2 {
        return false;
    }
    if p == 2 {
        return true;
    }
    let mut s = big_from_u64(4);
    let mut i: u64 = 0;
    while i < p - 2
        invariant
            3 <= p,
            i <= p - 2,
            big_value(s) as int == lucas_lehmer_seq(p as nat, i as nat),
        decreases p - 2 - i,
    {
        s = square_and_subtract_two_mod_mp(&s, p);
        i = i + 1;
    }
    let zero = big_from_u64(0);
    big_eq(&s, &zero)
}

} // verus!
