use num_bigint::BigUint;
use num_traits::{One, Zero};
use primality_jones::{
    check_mersenne_candidate, check_small_factors, is_prime, lucas_lehmer_test,
    miller_rabin_round, miller_rabin_test, mod_mp, square_and_subtract_two_mod_mp, CheckLevel,
};
use std::time::{Duration, Instant};

#[test]
fn test_reduce_bounds_for_small_exponents() {
    // For all tested k and p in [3, 20): mod_mp(k, p) < 2^p - 1.
    for p in 3..20u64 {
        let mp = (BigUint::one() << p) - BigUint::one();
        for k in 0..1000u32 {
            let k_big = BigUint::from(k);
            assert!(mod_mp(&k_big, p) < mp);
        }
    }
}

#[test]
fn test_reduce_idempotence() {
    for p in 3..20u64 {
        for k in 0..1000u32 {
            let k_big = BigUint::from(k);
            let once = mod_mp(&k_big, p);
            let twice = mod_mp(&once, p);
            assert_eq!(once, twice);
        }
    }
}

#[test]
fn test_reduce_matches_generic_remainder() {
    for p in 3..20u64 {
        let mp = (BigUint::one() << p) - BigUint::one();
        for k in 0..1000u32 {
            let k_big = BigUint::from(k);
            assert_eq!(mod_mp(&k_big, p), &k_big % &mp);
        }
    }
}

#[test]
fn test_reduce_example() {
    // 200 mod 127 = 73
    assert_eq!(mod_mp(&BigUint::from(200u32), 7), BigUint::from(73u32));
}

#[test]
fn test_reduce_fallback_cap() {
    // A value with far more than 1000 * p bits forces the iteration cap,
    // so the generic-remainder fallback must produce the exact result.
    let p = 3u64;
    let mp = (BigUint::one() << p) - BigUint::one();
    let k = BigUint::one() << 3500;
    let reduced = mod_mp(&k, p);
    assert_eq!(reduced, &k % &mp);
    assert_eq!(reduced, BigUint::from(4u32)); // 3500 = 2 (mod 3), so 2^3500 = 4 (mod 7)
}

#[test]
fn test_lucas_lehmer_trace_for_m7() {
    // s0=4 -> s1=14 -> s2=67 -> s3=42 -> s4=111 -> s5=0
    let p = 7u64;
    let expected = [14u32, 67, 42, 111, 0];
    let mut s = BigUint::from(4u32);
    for e in expected {
        s = square_and_subtract_two_mod_mp(&s, p);
        assert_eq!(s, BigUint::from(e));
    }
    assert!(lucas_lehmer_test(7));
}

#[test]
fn test_lucas_lehmer_m11_composite() {
    // M11 = 2047 = 23 * 89
    assert!(!lucas_lehmer_test(11));
}

#[test]
fn test_lucas_lehmer_smallest_exponents() {
    assert!(!lucas_lehmer_test(0));
    assert!(!lucas_lehmer_test(1));
    // M2 = 3 is prime; the test answers p = 2 directly since the
    // recurrence runs zero steps there.
    assert!(lucas_lehmer_test(2));
    assert!(lucas_lehmer_test(3)); // M3 = 7 is prime
}

#[test]
fn test_square_and_subtract_underflow_guard() {
    // s in {0, 1} makes s^2 - 2 negative; the subtraction must wrap
    // modulo M_p instead of underflowing.
    let p = 5u64; // M5 = 31
    assert_eq!(
        square_and_subtract_two_mod_mp(&BigUint::zero(), p),
        BigUint::from(29u32)
    );
    assert_eq!(
        square_and_subtract_two_mod_mp(&BigUint::one(), p),
        BigUint::from(30u32)
    );
}

#[test]
fn test_find_small_factor_of_m11() {
    assert_eq!(check_small_factors(11, 1_000_000), Some(23));
}

#[test]
fn test_find_small_factor_of_m23() {
    // M23 = 8388607 = 47 * 178481, and 47 = 2 * 1 * 23 + 1
    assert_eq!(check_small_factors(23, 1_000_000), Some(47));
}

#[test]
fn test_small_factor_search_rejects_composite_exponent() {
    // The factor form 2kp + 1 is only valid for prime p.
    assert_eq!(check_small_factors(4, 1_000_000), None);
    assert_eq!(check_small_factors(0, 1_000_000), None);
}

#[test]
fn test_small_factor_search_finds_none_for_prime_mersenne() {
    // M13 = 8191 is prime, so no factor exists at all.
    assert_eq!(check_small_factors(13, 1_000_000), None);
}

#[test]
fn test_pipeline_stops_at_failed_prescreen() {
    // 8 is not prime: exactly one result, failed.
    let results = check_mersenne_candidate(8, CheckLevel::TrialFactoring);
    assert_eq!(results.len(), 1);
    assert!(!results[0].passed);
    assert_eq!(results[0].message, "Exponent is not prime");
}

#[test]
fn test_pipeline_reports_small_factor() {
    // 11 is prime but M11 has the factor 23: two results, the second
    // failed and naming the factor.
    let results = check_mersenne_candidate(11, CheckLevel::TrialFactoring);
    assert_eq!(results.len(), 2);
    assert!(results[0].passed);
    assert_eq!(results[0].message, "Exponent is prime");
    assert!(!results[1].passed);
    assert_eq!(results[1].message, "Found small factor: 23");
}

#[test]
fn test_pipeline_full_run_on_m127() {
    // M127 is a known Mersenne prime: every stage passes.
    let results = check_mersenne_candidate(127, CheckLevel::LucasLehmer);
    assert!(results.iter().all(|r| r.passed));
    assert_eq!(results.len(), 4);
}

#[test]
fn test_pipeline_stops_at_requested_level() {
    let results = check_mersenne_candidate(31, CheckLevel::PreScreen);
    assert_eq!(results.len(), 1);
    assert!(results[0].passed);

    let results = check_mersenne_candidate(31, CheckLevel::TrialFactoring);
    assert_eq!(results.len(), 2);
    assert!(results.iter().all(|r| r.passed));
}

#[test]
fn test_miller_rabin_rejects_composites_repeatedly() {
    // Known-composite Mersenne exponents must never be reported prime,
    // across repeated runs (statistical, not absolute).
    for _ in 0..3 {
        for p in [11u64, 23, 29, 37] {
            assert!(
                !miller_rabin_test(p, 5, Instant::now(), Duration::from_secs(30)),
                "Miller-Rabin accepted composite M{}",
                p
            );
        }
    }
}

#[test]
fn test_miller_rabin_round_strong_liar() {
    // M11 = 2047 is a strong pseudoprime to base 2: 2^11 = 1 (mod 2047),
    // so 2^1023 = 1 as well and the round passes.
    let m = BigUint::from(2047u32);
    let m_minus_1 = BigUint::from(2046u32);
    let d = BigUint::from(1023u32); // 2046 = 2^1 * 1023
    let base_two = BigUint::from(2u32);
    assert!(miller_rabin_round(&base_two, &d, 1, &m, &m_minus_1));
}

#[test]
fn test_miller_rabin_round_witness() {
    // Base 3 witnesses the compositeness of 2047.
    let m = BigUint::from(2047u32);
    let m_minus_1 = BigUint::from(2046u32);
    let d = BigUint::from(1023u32);
    let base_three = BigUint::from(3u32);
    assert!(!miller_rabin_round(&base_three, &d, 1, &m, &m_minus_1));
}

#[test]
fn test_is_prime_large_values() {
    assert!(is_prime(2_147_483_647)); // M31 is prime
    assert!(!is_prime(2_147_483_649)); // divisible by 3
    assert!(!is_prime(4_294_967_297)); // F5 = 641 * 6700417
    assert!(is_prime(2));
    assert!(is_prime(3));
    assert!(!is_prime(25));
}

#[test]
fn test_check_level_descriptions() {
    assert_eq!(
        CheckLevel::PreScreen.description(),
        "Pre-screen: Check if exponent is prime (instant)"
    );
    assert_eq!(
        CheckLevel::TrialFactoring.description(),
        "Trial factoring: Check for small factors (~1 second)"
    );
    assert_eq!(
        CheckLevel::Probabilistic.description(),
        "Probabilistic: Miller-Rabin test (seconds to minutes)"
    );
    assert_eq!(
        CheckLevel::LucasLehmer.description(),
        "Lucas-Lehmer: Definitive test (minutes to hours)"
    );
}

#[test]
fn test_check_level_ordering() {
    assert!(CheckLevel::PreScreen < CheckLevel::TrialFactoring);
    assert!(CheckLevel::TrialFactoring < CheckLevel::Probabilistic);
    assert!(CheckLevel::Probabilistic < CheckLevel::LucasLehmer);
}
