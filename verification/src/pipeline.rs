//! The staged testing pipeline for a Mersenne candidate.
//!
//! Stages run in a fixed order of increasing cost, each appending one
//! `CheckResult` to the run log; the pipeline stops at the first failing
//! stage or once the requested level has run.  In the returned sequence
//! only the last entry may be a failure, and the candidate is promising
//! exactly when every entry passed.

use vstd::prelude::*;
use vstd::string::StringExecFns;
use std::time::Duration;
use crate::clock::{duration_from_secs, instant_elapsed, instant_now};
use crate::factoring::{check_small_factors, no_small_factor, qualifies};
use crate::lucas_lehmer::{lucas_lehmer_test, lucas_lehmer_verdict};
use crate::miller_rabin::miller_rabin_test;
use crate::primes::{is_prime, is_prime_spec};
use crate::text::{dec_seq, u64_to_decimal};

verus! {

/// The escalation stages of the pipeline, in canonical order.
#[derive(Debug, Clone, Copy, PartialEq, Eq, PartialOrd, Ord, Structural)]
pub enum CheckLevel {
    /// Check that the exponent p itself is prime.
    PreScreen,
    /// Search for small factors of M_p of the form 2kp + 1.
    TrialFactoring,
    /// Miller-Rabin rounds over M_p.
    Probabilistic,
    /// The definitive Lucas-Lehmer test.
    LucasLehmer,
}

/// The outcome of one pipeline stage.
#[derive(Debug, Clone)]
pub struct CheckResult {
    /// Whether the stage passed.
    pub passed: bool,
    /// Human-readable description of the outcome.
    pub message: String,
    /// How long the stage ran.
    pub time_taken: Duration,
}

/// The text `description` returns for each level.
pub open spec fn description_spec(level: CheckLevel) -> Seq<char> {
    match level {
        CheckLevel::PreScreen => "Pre-screen: Check if exponent is prime (instant)"@,
        CheckLevel::TrialFactoring => "Trial factoring: Check for small factors (~1 second)"@,
        CheckLevel::Probabilistic => "Probabilistic: Miller-Rabin test (seconds to minutes)"@,
        CheckLevel::LucasLehmer => "Lucas-Lehmer: Definitive test (minutes to hours)"@,
    }
}

impl CheckLevel {
    /// A human-readable description of the check level.
    pub fn description(&self) -> (r: String)
        ensures
            r@ == description_spec(*self),
    {
        match self {
            CheckLevel::PreScreen => "Pre-screen: Check if exponent is prime (instant)".to_owned(),
            CheckLevel::TrialFactoring => "Trial factoring: Check for small factors (~1 second)".to_owned(),
            CheckLevel::Probabilistic => "Probabilistic: Miller-Rabin test (seconds to minutes)".to_owned(),
            CheckLevel::LucasLehmer => "Lucas-Lehmer: Definitive test (minutes to hours)".to_owned(),
        }
    }
}

/// The message reported when a small factor q was found.
pub open spec fn factor_message(q: nat) -> Seq<char> {
    "Found small factor: "@ + dec_seq(q)
}

/// Run the pipeline for M_p up to the requested level.
///
/// The result log satisfies the run invariant: it is a prefix of the
/// canonical stage order, every entry but the last passed, and each
/// entry's verdict is pinned to its stage (the probabilistic stage
/// excepted: its verdict depends on random bases and the clock).
pub fn check_mersenne_candidate(p: u64, level: CheckLevel) -> (results: Vec<CheckResult>)
    ensures
        1 <= results@.len() <= 4,
        forall|i: int| 0 <= i < results@.len() - 1 ==> results@[i].passed,
        results@[0].passed == is_prime_spec(p as int),
        results@[0].message@ == (if is_prime_spec(p as int) {
            "Exponent is prime"@
        } else {
            "Exponent is not prime"@
        }),
        (results@.len() == 1) == (!is_prime_spec(p as int) || level == CheckLevel::PreScreen),
        results@.len() >= 2 ==> results@[1].passed == no_small_factor(p as nat, 1000000),
        results@.len() >= 2 && results@[1].passed ==> results@[1].message@
            == "No small factors found up to 1M"@,
        results@.len() >= 2 && !results@[1].passed ==> exists|q: nat|
            {
                &&& qualifies(q as int, p as nat)
                &&& exists|kf: int|
                    1 <= kf && #[trigger] (2 * kf * (p as int)) < 1000000 && q == 2 * kf * (
                    p as int) + 1
                &&& forall|k2: int|
                    1 <= k2 && 2 * k2 * (p as int) + 1 < q ==> !#[trigger] qualifies(
                        2 * k2 * (p as int) + 1,
                        p as nat,
                    )
                &&& results@[1].message@ == #[trigger] factor_message(q)
            },
        results@.len() >= 2 ==> ((results@.len() == 2) == (!no_small_factor(p as nat, 1000000)
            || level == CheckLevel::TrialFactoring)),
        results@.len() >= 3 ==> results@[2].message@ == (if results@[2].passed {
            "Passed Miller-Rabin test"@
        } else {
            "Failed Miller-Rabin test"@
        }),
        results@.len() >= 3 ==> ((results@.len() == 3) == (!results@[2].passed || level
            == CheckLevel::Probabilistic)),
        results@.len() == 4 ==> {
            &&& level == CheckLevel::LucasLehmer
            &&& results@[3].passed == lucas_lehmer_verdict(p as nat)
            &&& results@[3].message@ == (if lucas_lehmer_verdict(p as nat) {
                "Passed Lucas-Lehmer test (definitive)"@
            } else {
                "Failed Lucas-Lehmer test (definitive)"@
            })
        },
{
    let mut results: Vec<CheckResult> = Vec::new();
    let start_time = instant_now();

    let check_start = instant_now();
    let prime_passed = is_prime(p);
    let prime_message = if prime_passed {
        "Exponent is prime".to_owned()
    } else {
        "Exponent is not prime".to_owned()
    };
    results.push(
        CheckResult {
            passed: prime_passed,
            message: prime_message,
            time_taken: instant_elapsed(&check_start),
        },
    );
    if !prime_passed || level == CheckLevel::PreScreen {
        return results;
    }

    let check_start = instant_now();
    let factor = check_small_factors(p, 1000000);
    match factor {
        Option::Some(f) => {
            let message = String::from_str("Found small factor: ").concat(
                u64_to_decimal(f).as_str(),
            );
            proof {
                let kw = choose|k: int|
                    1 <= k && 2 * k * (p as int) < 1000000 && f == 2 * k * (p as int) + 1
                        && #[trigger] qualifies(2 * k * (p as int) + 1, p as nat);
                assert(qualifies(2 * kw * (p as int) + 1, p as nat));
                assert(qualifies(f as int, p as nat));
                assert(1 <= kw && (2 * kw * (p as int)) < 1000000 && f as nat == 2 * kw * (
                p as int) + 1);
                assert(exists|kf: int|
                    1 <= kf && #[trigger] (2 * kf * (p as int)) < 1000000 && f as nat == 2 * kf * (
                    p as int) + 1);
                assert(message@ == factor_message(f as nat));
            }
            results.push(
                CheckResult {
                    passed: false,
                    message,
                    time_taken: instant_elapsed(&check_start),
                },
            );
            return results;
        },
        Option::None => {},
    }
    results.push(
        CheckResult {
            passed: true,
            message: "No small factors found up to 1M".to_owned(),
            time_taken: instant_elapsed(&check_start),
        },
    );
    if level == CheckLevel::TrialFactoring {
        return results;
    }

    let check_start = instant_now();
    let timeout = duration_from_secs(300);
    let miller_rabin_passed = miller_rabin_test(p, 5, start_time, timeout);
    let mr_message = if miller_rabin_passed {
        "Passed Miller-Rabin test".to_owned()
    } else {
        "Failed Miller-Rabin test".to_owned()
    };
    results.push(
        CheckResult {
            passed: miller_rabin_passed,
            message: mr_message,
            time_taken: instant_elapsed(&check_start),
        },
    );
    if !miller_rabin_passed || level == CheckLevel::Probabilistic {
        return results;
    }

    let check_start = instant_now();
    let ll_passed = lucas_lehmer_test(p);
    let ll_message = if ll_passed {
        "Passed Lucas-Lehmer test (definitive)".to_owned()
    } else {
        "Failed Lucas-Lehmer test (definitive)".to_owned()
    };
    results.push(
        CheckResult {
            passed: ll_passed,
            message: ll_message,
            time_taken: instant_elapsed(&check_start),
        },
    );
    results
}

} // verus!
