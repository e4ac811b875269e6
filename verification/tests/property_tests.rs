use num_bigint::BigUint;
use num_traits::{One, Zero};
use primality_jones::{mod_mp, square_and_subtract_two_mod_mp};

#[test]
fn test_mod_mp_edge_cases() {
    // Test edge cases for mod_mp
    let p = 7;
    let mp = (BigUint::one() << p) - BigUint::one(); // M7 = 127

    // Test zero
    assert_eq!(mod_mp(&BigUint::zero(), p), BigUint::zero());

    // Test one
    assert_eq!(mod_mp(&BigUint::one(), p), BigUint::one());

    // Test M_p itself
    assert_eq!(mod_mp(&mp, p), BigUint::zero());

    // Test M_p + 1
    let mp_plus_one = &mp + BigUint::one();
    assert_eq!(mod_mp(&mp_plus_one, p), BigUint::one());

    // Test 2^p (should reduce to 1)
    let two_to_p = BigUint::one() << p;
    assert_eq!(mod_mp(&two_to_p, p), BigUint::one());
}

#[test]
fn test_lucas_lehmer_sequence_properties() {
    // Test that the Lucas-Lehmer sequence has expected properties
    let p = 7; // M7 = 127 is prime
    let mut s = BigUint::from(4u32);

    // First iteration: s = (4^2 - 2) mod 127 = (16 - 2) mod 127 = 14
    s = square_and_subtract_two_mod_mp(&s, p);
    assert_eq!(s, BigUint::from(14u32));

    // Second iteration: s = (14^2 - 2) mod 127 = (196 - 2) mod 127 = 67
    s = square_and_subtract_two_mod_mp(&s, p);
    assert_eq!(s, BigUint::from(67u32));

    // Continue for p-2 = 5 iterations total
    for _ in 2..(p - 2) {
        s = square_and_subtract_two_mod_mp(&s, p);
    }

    // Final result should be 0 for a prime Mersenne number
    assert_eq!(s, BigUint::zero());
}

#[test]
fn test_composite_mersenne_sequence() {
    // Test that composite Mersenne numbers don't end with 0
    let p = 11; // M11 = 2047 is composite (23 * 89)
    let mut s = BigUint::from(4u32);

    // Run the full Lucas-Lehmer sequence
    for _ in 0..(p - 2) {
        s = square_and_subtract_two_mod_mp(&s, p);
    }

    // Final result should NOT be 0 for a composite Mersenne number
    assert_ne!(s, BigUint::zero());
}

#[test]
fn test_mersenne_number_properties() {
    // Test mathematical properties of Mersenne numbers
    for p in [3u64, 5, 7, 11, 13, 17, 19, 23, 29, 31] {
        let mp: BigUint = (BigUint::one() << p) - BigUint::one();

        // Property: M_p is always odd (except M2 = 3)
        if p > 2 {
            assert_eq!(&mp % BigUint::from(2u32), BigUint::one());
        }

        // Property: M_p has exactly p binary digits
        let binary_digits = mp.to_str_radix(2).len();
        assert_eq!(binary_digits, p as usize);

        // Property: M_p = 3 (mod 4) for p > 2
        if p > 2 {
            assert_eq!(&mp % BigUint::from(4u32), BigUint::from(3u32));
        }
    }
}
