//! Staged primality testing for Mersenne numbers M_p = 2^p - 1.
//!
//! The library screens a candidate exponent p with a pipeline of tests of
//! increasing cost: trial division of p itself, a search for small factors
//! of M_p of the form 2kp + 1, a Miller-Rabin round sequence over M_p, and
//! the definitive Lucas-Lehmer test.

mod bignum;
mod clock;
mod factoring;
mod lucas_lehmer;
mod miller_rabin;
mod pipeline;
mod primes;
mod reduction;
mod text;

pub use bignum::big_value;
pub use factoring::{check_small_factors, no_small_factor, qualifies};
pub use lucas_lehmer::{lucas_lehmer_seq, lucas_lehmer_test, lucas_lehmer_verdict};
pub use miller_rabin::{chain_reaches, miller_rabin_round, miller_rabin_test, round_passes};
pub use pipeline::{check_mersenne_candidate, description_spec, factor_message, CheckLevel, CheckResult};
pub use primes::{is_prime, is_prime_spec};
pub use reduction::{
    lemma_reduce_idempotent, mersenne, mod_mp, reduce_spec, square_and_subtract_two_mod_mp,
};
pub use text::dec_seq;
