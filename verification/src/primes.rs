//! Trial-division primality testing for machine-word integers.
//!
//! The exponent screen of the pipeline must decide, exactly, whether a
//! candidate exponent p is prime.  `is_prime` runs trial division with the
//! 6k +/- 1 wheel up to the integer square root and is proved equivalent to
//! the mathematical definition of primality.

use vstd::prelude::*;
use vstd::arithmetic::div_mod::{
    lemma_fundamental_div_mod, lemma_mod_multiples_vanish, lemma_small_mod,
};

verus! {

/// A number is prime when it is at least 2 and no smaller number from 2 up
/// divides it.
pub open spec fn is_prime_spec(n: int) -> bool {
    n >= 2 && forall|d: int| 2 <= d < n ==> #[trigger] (n % d) != 0
}

/// Any multiple of a positive m is 0 modulo m.
pub(crate) proof fn lemma_multiple_mod_zero(a: int, m: int)
    requires
        m > 0,
    ensures
        (m * a) % m == 0,
{
    lemma_mod_multiples_vanish(a, 0, m);
    lemma_small_mod(0, m as nat);
}

/// Divisibility is transitive: if d divides n and k divides d, then k
/// divides n.
proof fn lemma_divides_transitive(n: int, d: int, k: int)
    requires
        d > 0,
        k > 0,
        n % d == 0,
        d % k == 0,
    ensures
        n % k == 0,
{
    let a = n / d;
    let b = d / k;
    lemma_fundamental_div_mod(n, d);
    lemma_fundamental_div_mod(d, k);
    assert(n == k * (b * a)) by (nonlinear_arith)
        requires
            n == d * a,
            d == k * b,
    ;
    lemma_multiple_mod_zero(b * a, k);
}

/// One step of the 6k +/- 1 wheel: once n is known to be coprime to 2 and 3
/// and to have no divisor below i (with i = 5 mod 6), ruling out i and i + 2
/// rules out every candidate below i + 6.
proof fn lemma_wheel_step(n: int, i: int)
    requires
        n >= 2,
        n % 2 != 0,
        n % 3 != 0,
        i >= 5,
        i % 6 == 5,
        n % i != 0,
        n % (i + 2) != 0,
        forall|d: int| 2 <= d < i ==> #[trigger] (n % d) != 0,
    ensures
        forall|d: int| 2 <= d < i + 6 ==> #[trigger] (n % d) != 0,
{
    let q = i / 6;
    lemma_fundamental_div_mod(i, 6);
    assert((i + 1) % 2 == 0) by {
        assert(i + 1 == 2 * (3 * q + 3));
        lemma_multiple_mod_zero(3 * q + 3, 2);
    }
    assert((i + 3) % 2 == 0) by {
        assert(i + 3 == 2 * (3 * q + 4));
        lemma_multiple_mod_zero(3 * q + 4, 2);
    }
    assert((i + 5) % 2 == 0) by {
        assert(i + 5 == 2 * (3 * q + 5));
        lemma_multiple_mod_zero(3 * q + 5, 2);
    }
    assert((i + 4) % 3 == 0) by {
        assert(i + 4 == 3 * (2 * q + 3));
        lemma_multiple_mod_zero(2 * q + 3, 3);
    }
    assert forall|d: int| 2 <= d < i + 6 implies #[trigger] (n % d) != 0 by {
        if d == i + 1 || d == i + 3 || d == i + 5 {
            if n % d == 0 {
                lemma_divides_transitive(n, d, 2);
            }
        } else if d == i + 4 {
            if n % d == 0 {
                lemma_divides_transitive(n, d, 3);
            }
        }
    }
}

/// If n has no divisor below i and i * i exceeds n, then n has no proper
/// divisor at all: a divisor at or above i would pair with a cofactor
/// below i.
proof fn lemma_only_smaller_divisors(n: int, i: int)
    requires
        n >= 2,
        i >= 2,
        i * i > n,
        forall|d: int| 2 <= d < i ==> #[trigger] (n % d) != 0,
    ensures
        forall|d: int| 2 <= d < n ==> #[trigger] (n % d) != 0,
{
    assert forall|d: int| 2 <= d < n implies #[trigger] (n % d) != 0 by {
        if d >= i && n % d == 0 {
            let e = n / d;
            lemma_fundamental_div_mod(n, d);
            assert(2 <= e < i) by (nonlinear_arith)
                requires
                    n == d * e,
                    2 <= d < n,
                    d >= i,
                    i >= 2,
                    i * i > n,
            ;
            assert(n % e == 0) by {
                assert(n == e * d) by (nonlinear_arith)
                    requires
                        n == d * e,
                ;
                lemma_multiple_mod_zero(d, e);
            }
        }
    }
}

/// Whether i * i <= n, computed without overflow by widening to u128.
fn square_at_most(i: u64, n: u64) -> (r: bool)
    ensures
        r == ((i as int) * (i as int) <= n as int),
{
    let wide: u128 = i as u128;
    proof {
        assert((wide as int) * (wide as int) < u128::MAX as int) by (nonlinear_arith)
            requires
                0 <= wide < 0x1_0000_0000_0000_0000,
        ;
    }
    wide * wide <= n as u128
}

/// Trial-division primality test, exact for every `u64`.
///
/// Divisibility by 2 and 3 is checked first; the remaining candidate
/// divisors walk the 6k +/- 1 wheel up to the square root of n.
#[verifier::rlimit(60)]
pub fn is_prime(n: u64) -> (r: bool)
    ensures
        r == is_prime_spec(n as int),
{
    if n <= 1 {
        return false;
    }
    if n <= 3 {
        assert forall|d: int| 2 <= d < n implies #[trigger] ((n as int) % d) != 0 by {
            assert(d == 2 && n == 3);
        }
        return true;
    }
    if n % 2 == 0 {
        assert((n as int) % 2 == 0 && 2 <= 2 < n);
        return false;
    }
    if n % 3 == 0 {
        assert((n as int) % 3 == 0 && 2 <= 3 < n);
        return false;
    }
    proof {
        assert forall|d: int| 2 <= d < 5 implies #[trigger] ((n as int) % d) != 0 by {
            if d == 4 && (n as int) % d == 0 {
                lemma_divides_transitive(n as int, 4, 2);
            }
        }
    }
    let mut i: u64 = 5;
    loop
        invariant
            n >= 5,
            n % 2 != 0,
            n % 3 != 0,
            5 <= i,
            i % 6 == 5,
            forall|d: int| 2 <= d < i ==> #[trigger] ((n as int) % d) != 0,
        ensures
            (i as int) * (i as int) > n as int,
            forall|d: int| 2 <= d < i ==> #[trigger] ((n as int) % d) != 0,
        decreases n - i,
    {
        if !square_at_most(i, n) {
            break;
        }
        proof {
            assert(i + 2 < n) by (nonlinear_arith)
                requires
                    i >= 5,
                    (i as int) * (i as int) <= n as int,
            ;
        }
        if n % i == 0 {
            assert((n as int) % (i as int) == 0 && 2 <= i < n);
            return false;
        }
        if n % (i + 2) == 0 {
            assert((n as int) % ((i + 2) as int) == 0 && 2 <= i + 2 < n);
            return false;
        }
        proof {
            lemma_wheel_step(n as int, i as int);
            assert(i + 6 < u64::MAX) by (nonlinear_arith)
                requires
                    5 <= i,
                    (i as int) * (i as int) <= n as int,
                    n <= u64::MAX,
            ;
        }
        i = i + 6;
    }
    proof {
        lemma_only_smaller_divisors(n as int, i as int);
    }
    true
}

} // verus!
