//! Trusted interface to the arbitrary-precision integers of `num_bigint`.
//!
//! A `BigUint` is opaque to the verifier; the uninterpreted function
//! [`big_value`] names the natural number it holds.  Each wrapper below
//! relies on one operation of `num_bigint` (or of `rand`, for the random
//! base draw) and states its effect on that value.

use vstd::prelude::*;
use vstd::arithmetic::power::pow;
use vstd::arithmetic::power2::pow2;
use num_bigint::BigUint;
use num_bigint::RandBigInt;
use rand::rngs::ThreadRng;

verus! {

#[verifier::external_type_specification]
#[verifier::external_body]
pub struct ExBigUint(BigUint);

#[verifier::external_type_specification]
#[verifier::external_body]
pub struct ExThreadRng(ThreadRng);

/// The natural number that a `BigUint` holds.
pub uninterp spec fn big_value(b: BigUint) -> nat;

/// A value of the form 2^q - 1: all set bits are contiguous from bit 0.
pub open spec fn is_low_bit_mask(v: nat) -> bool {
    exists|q: nat| v + 1 == pow2(q)
}

/// Relies on `BigUint: From<u64>`: the constructed value is the argument.
#[verifier::external_body]
pub(crate) fn big_from_u64(x: u64) -> (r: BigUint)
    ensures
        big_value(r) == x as nat,
{
    BigUint::from(x)
}

/// Relies on `BigUint: Clone`: the copy holds the same value.
#[verifier::external_body]
pub(crate) fn big_clone(a: &BigUint) -> (r: BigUint)
    ensures
        big_value(r) == big_value(*a),
{
    a.clone()
}

/// Relies on `BigUint: PartialEq`: equality of the held values.
#[verifier::external_body]
pub(crate) fn big_eq(a: &BigUint, b: &BigUint) -> (r: bool)
    ensures
        r == (big_value(*a) == big_value(*b)),
{
    a == b
}

/// Relies on `BigUint: PartialOrd`: order of the held values.
#[verifier::external_body]
pub(crate) fn big_lt(a: &BigUint, b: &BigUint) -> (r: bool)
    ensures
        r == (big_value(*a) < big_value(*b)),
{
    a < b
}

/// Relies on `Add for &BigUint`: exact sum.
#[verifier::external_body]
pub(crate) fn big_add(a: &BigUint, b: &BigUint) -> (r: BigUint)
    ensures
        big_value(r) == big_value(*a) + big_value(*b),
{
    a + b
}

/// Relies on `Sub for &BigUint`: exact difference.  Subtraction panics on
/// underflow, so the smaller operand must be on the right.
#[verifier::external_body]
pub(crate) fn big_sub(a: &BigUint, b: &BigUint) -> (r: BigUint)
    requires
        big_value(*b) <= big_value(*a),
    ensures
        big_value(r) == big_value(*a) - big_value(*b),
{
    a - b
}

/// Relies on `Mul for &BigUint`: exact product.
#[verifier::external_body]
pub(crate) fn big_mul(a: &BigUint, b: &BigUint) -> (r: BigUint)
    ensures
        big_value(r) == big_value(*a) * big_value(*b),
{
    a * b
}

/// Relies on `Shl<u64> for &BigUint`: a left shift by p multiplies by 2^p.
#[verifier::external_body]
pub(crate) fn big_shl(a: &BigUint, p: u64) -> (r: BigUint)
    ensures
        big_value(r) == big_value(*a) * pow2(p as nat),
{
    a << p
}

/// Relies on `Shr<u64> for &BigUint`: a right shift by p divides by 2^p,
/// discarding the low bits.
#[verifier::external_body]
pub(crate) fn big_shr(a: &BigUint, p: u64) -> (r: BigUint)
    ensures
        big_value(r) == big_value(*a) / pow2(p as nat),
{
    a >> p
}

/// Relies on `BitAnd for &BigUint`: AND with a mask of the form 2^q - 1
/// keeps exactly the low q bits, that is, the value modulo 2^q.
#[verifier::external_body]
pub(crate) fn big_and_mask(a: &BigUint, m: &BigUint) -> (r: BigUint)
    requires
        is_low_bit_mask(big_value(*m)),
    ensures
        big_value(r) == big_value(*a) % (big_value(*m) + 1),
{
    a & m
}

/// Relies on `Rem for &BigUint`: the Euclidean remainder.  Division by
/// zero panics, so the divisor must be positive.
#[verifier::external_body]
pub(crate) fn big_mod(a: &BigUint, m: &BigUint) -> (r: BigUint)
    requires
        big_value(*m) > 0,
    ensures
        big_value(r) == big_value(*a) % big_value(*m),
{
    a % m
}

/// Relies on `Div for &BigUint`: the Euclidean quotient.  Division by
/// zero panics, so the divisor must be positive.
#[verifier::external_body]
pub(crate) fn big_div(a: &BigUint, d: &BigUint) -> (r: BigUint)
    requires
        big_value(*d) > 0,
    ensures
        big_value(r) == big_value(*a) / big_value(*d),
{
    a / d
}

/// Relies on `BigUint::modpow`: returns `(self ^ exponent) % modulus`.
/// A zero modulus panics, and for a zero exponent the implementation
/// returns 1 without reducing, so the modulus must exceed 1.
#[verifier::external_body]
pub(crate) fn big_modpow(b: &BigUint, e: &BigUint, m: &BigUint) -> (r: BigUint)
    requires
        big_value(*m) > 1,
    ensures
        big_value(r) == pow(big_value(*b) as int, big_value(*e)) % (big_value(*m) as int),
{
    b.modpow(e, m)
}

/// Relies on `rand::thread_rng`: a handle to the thread-local generator.
#[verifier::external_body]
pub(crate) fn rng_new() -> (r: ThreadRng) {
    rand::thread_rng()
}

/// Relies on `RandBigInt::gen_biguint_range`: a value in `[low, high)`.
/// The draw is random, so nothing beyond the range is promised; an empty
/// range panics.
#[verifier::external_body]
pub(crate) fn big_random_range(rng: &mut ThreadRng, low: &BigUint, high: &BigUint) -> (r: BigUint)
    requires
        big_value(*low) < big_value(*high),
    ensures
        big_value(*low) <= big_value(r) < big_value(*high),
{
    rng.gen_biguint_range(low, high)
}

} // verus!
