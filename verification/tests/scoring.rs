use validator_score::validator::{
    ATTESTATION_WEIGHT, BALANCE_LIMIT, BALANCE_WEIGHT, COUNT_LIMIT, PERCENT, PROPOSAL_WEIGHT,
    SLASHING_WEIGHT, UPTIME_WEIGHT, WEIGHT_TOTAL,
};
use validator_score::{Score, Validator};

fn sample() -> Validator {
    Validator {
        total_blocks_signed: 950,
        total_blocks_assigned: 1000,
        total_blocks_proposed: 100,
        total_blocks_proposed_included: 98,
        total_attestations_created: 1200,
        total_attestations_included: 1180,
        number_of_slashings: 0,
        initial_validator_balance: 32,
        current_validator_balance: 34,
    }
}

/// Whether `score` is the fraction `num / den`, whatever its own terms.
fn is_fraction(score: Score, num: i128, den: u128) -> bool {
    match score {
        Score::Finite { numerator, denominator } => {
            denominator > 0 && numerator * (den as i128) == num * (denominator as i128)
        }
        _ => false,
    }
}

fn as_float(score: Score) -> f64 {
    match score {
        Score::Finite { numerator, denominator } => numerator as f64 / denominator as f64,
        Score::PosInfinity => f64::INFINITY,
        Score::NegInfinity => f64::NEG_INFINITY,
        Score::NotANumber => f64::NAN,
    }
}

/// The composite score in floating point, term by term.
fn float_score(v: &Validator, total_validators: u64) -> f64 {
    let us = v.total_blocks_signed as f64 / v.total_blocks_assigned as f64 * 100.0;
    let pir = v.total_blocks_proposed_included as f64 / v.total_blocks_proposed as f64 * 100.0;
    let air =
        v.total_attestations_included as f64 / v.total_attestations_created as f64 * 100.0;
    let sp = 1.0 - (v.number_of_slashings as f64 / total_validators as f64);
    let bg = (v.current_validator_balance as f64 - v.initial_validator_balance as f64)
        / v.initial_validator_balance as f64;
    us * 0.40 + pir * 0.20 + air * 0.20 + sp * 0.10 + bg * 0.10
}

#[test]
fn sample_sub_scores_are_exact() {
    let v = sample();
    assert_eq!(v.uptime_score(), Score::Finite { numerator: 95_000, denominator: 1000 });
    assert!(is_fraction(v.uptime_score(), 95, 1));
    assert_eq!(v.proposal_inclusion_rate(), Score::Finite { numerator: 9_800, denominator: 100 });
    assert!(is_fraction(v.proposal_inclusion_rate(), 98, 1));
    assert_eq!(
        v.attestation_inclusion_rate(),
        Score::Finite { numerator: 118_000, denominator: 1200 }
    );
    assert!(is_fraction(v.attestation_inclusion_rate(), 295, 3));
    assert_eq!(v.slashing_prevention(1000), Score::Finite { numerator: 1000, denominator: 1000 });
    assert!(is_fraction(v.slashing_prevention(1000), 1, 1));
    assert_eq!(v.balance_growth(), Score::Finite { numerator: 2, denominator: 32 });
    assert!(is_fraction(v.balance_growth(), 1, 16));
}

#[test]
fn sample_score_is_the_weighted_sum() {
    let v = sample();
    let score = v.ethereum_validator_score(1000);
    // 38 + 19.6 + 59/3 + 0.1 + 0.00625 = 37139/480
    assert!(is_fraction(score, 37_139, 480));
    assert_eq!(
        score,
        Score::Finite {
            numerator: 29_711_200_000_000_000,
            denominator: 384_000_000_000_000,
        }
    );
    assert!((as_float(score) - 77.372_916_666_666_67).abs() < 1e-9);
    assert_eq!(score.to_decimal_string(), "77.37");
    assert_eq!(v.checked_ethereum_validator_score(1000), Some(score));
}

#[test]
fn sample_score_agrees_with_floating_point() {
    let v = sample();
    let exact = v.ethereum_validator_score(1000);
    let float = float_score(&v, 1000);
    assert!((as_float(exact) - float).abs() < 1e-9);
    assert_eq!(exact.to_decimal_string(), format!("{:.2}", float));
}

#[test]
fn balance_unit_does_not_change_the_score() {
    let mut v = sample();
    v.initial_validator_balance = 32_000_000_000;
    v.current_validator_balance = 34_000_000_000;
    let score = v.ethereum_validator_score(1000);
    assert!(is_fraction(v.balance_growth(), 1, 16));
    assert!(is_fraction(score, 37_139, 480));
    assert_eq!(score.to_decimal_string(), "77.37");
}

#[test]
fn no_assigned_blocks_is_not_finite() {
    let mut v = sample();
    v.total_blocks_assigned = 0;
    assert_eq!(v.uptime_score(), Score::PosInfinity);
    assert!(!v.uptime_score().is_finite());
    let score = v.ethereum_validator_score(1000);
    assert_eq!(score, Score::PosInfinity);
    assert!(!score.is_finite());
    assert!(!float_score(&v, 1000).is_finite());
    assert_eq!(score.to_decimal_string(), format!("{:.2}", float_score(&v, 1000)));
}

#[test]
fn nothing_signed_of_nothing_assigned_is_undefined() {
    let mut v = sample();
    v.total_blocks_assigned = 0;
    v.total_blocks_signed = 0;
    assert_eq!(v.uptime_score(), Score::NotANumber);
    let score = v.ethereum_validator_score(1000);
    assert_eq!(score, Score::NotANumber);
    assert!(float_score(&v, 1000).is_nan());
    assert_eq!(score.to_decimal_string(), "NaN");
}

#[test]
fn each_zero_divisor_makes_the_score_non_finite() {
    let mut v = sample();
    v.total_blocks_proposed = 0;
    assert_eq!(v.proposal_inclusion_rate(), Score::PosInfinity);
    assert_eq!(v.ethereum_validator_score(1000), Score::PosInfinity);

    let mut v = sample();
    v.total_attestations_created = 0;
    assert_eq!(v.attestation_inclusion_rate(), Score::PosInfinity);
    assert_eq!(v.ethereum_validator_score(1000), Score::PosInfinity);

    let mut v = sample();
    v.initial_validator_balance = 0;
    assert_eq!(v.balance_growth(), Score::PosInfinity);
    assert_eq!(v.ethereum_validator_score(1000), Score::PosInfinity);
    v.current_validator_balance = 0;
    assert_eq!(v.balance_growth(), Score::NotANumber);
    assert_eq!(v.ethereum_validator_score(1000), Score::NotANumber);

    let v = sample();
    assert_eq!(v.slashing_prevention(0), Score::NotANumber);
    assert_eq!(v.ethereum_validator_score(0), Score::NotANumber);
}

#[test]
fn slashings_among_no_validators_fall_without_bound() {
    let mut v = sample();
    v.number_of_slashings = 3;
    assert_eq!(v.slashing_prevention(0), Score::NegInfinity);
    let score = v.ethereum_validator_score(0);
    assert_eq!(score, Score::NegInfinity);
    assert_eq!(float_score(&v, 0), f64::NEG_INFINITY);
    assert_eq!(score.to_decimal_string(), "-inf");
}

#[test]
fn opposite_infinities_cancel_to_undefined() {
    let mut v = sample();
    v.total_blocks_assigned = 0;
    v.number_of_slashings = 3;
    assert_eq!(v.uptime_score(), Score::PosInfinity);
    assert_eq!(v.slashing_prevention(0), Score::NegInfinity);
    let score = v.ethereum_validator_score(0);
    assert_eq!(score, Score::NotANumber);
    assert!(float_score(&v, 0).is_nan());
}

#[test]
fn slashed_as_often_as_validators_is_zero() {
    let mut v = sample();
    v.number_of_slashings = 1000;
    let sp = v.slashing_prevention(1000);
    assert_eq!(sp, Score::Finite { numerator: 0, denominator: 1000 });
    assert!(is_fraction(sp, 0, 1));
    assert_eq!(sp.to_decimal_string(), "0.00");
}

#[test]
fn more_slashings_than_validators_is_negative() {
    let mut v = sample();
    v.number_of_slashings = 1500;
    let sp = v.slashing_prevention(1000);
    assert!(is_fraction(sp, -1, 2));
    assert_eq!(sp.to_decimal_string(), "-0.50");
}

#[test]
fn unchanged_balance_is_zero_growth() {
    let mut v = sample();
    v.current_validator_balance = v.initial_validator_balance;
    let bg = v.balance_growth();
    assert_eq!(bg, Score::Finite { numerator: 0, denominator: 32 });
    assert!(is_fraction(bg, 0, 1));
    assert_eq!(bg.to_decimal_string(), "0.00");
}

#[test]
fn shrinking_balance_is_negative_growth() {
    let mut v = sample();
    v.current_validator_balance = 24;
    assert!(is_fraction(v.balance_growth(), -1, 4));
    let score = v.ethereum_validator_score(1000);
    let float = float_score(&v, 1000);
    assert!((as_float(score) - float).abs() < 1e-9);
}

#[test]
fn rates_are_not_clamped() {
    let mut v = sample();
    v.total_blocks_proposed_included = 150;
    v.total_attestations_included = 2400;
    v.total_blocks_signed = 3000;
    assert!(is_fraction(v.proposal_inclusion_rate(), 150, 1));
    assert!(is_fraction(v.attestation_inclusion_rate(), 200, 1));
    assert!(is_fraction(v.uptime_score(), 300, 1));
}

#[test]
fn weights_add_up_to_the_whole() {
    assert_eq!(
        UPTIME_WEIGHT + PROPOSAL_WEIGHT + ATTESTATION_WEIGHT + SLASHING_WEIGHT + BALANCE_WEIGHT,
        WEIGHT_TOTAL
    );
    assert_eq!(UPTIME_WEIGHT, 40);
    assert_eq!(PROPOSAL_WEIGHT, 20);
    assert_eq!(ATTESTATION_WEIGHT, 20);
    assert_eq!(SLASHING_WEIGHT, 10);
    assert_eq!(BALANCE_WEIGHT, 10);
    assert_eq!(WEIGHT_TOTAL, 100);
    assert_eq!(PERCENT, 100);
    let floats =
        [0.4_f64, 0.2, 0.2, 0.1, 0.1].iter().map(|w| (w * 100.0).round() as u64).sum::<u64>();
    assert_eq!(floats, WEIGHT_TOTAL);
}

#[test]
fn a_perfect_record_scores_eighty_and_a_tenth() {
    // 40 + 20 + 20 + 0.1 + 0 = 80.1
    let v = Validator {
        total_blocks_signed: 7,
        total_blocks_assigned: 7,
        total_blocks_proposed: 3,
        total_blocks_proposed_included: 3,
        total_attestations_created: 11,
        total_attestations_included: 11,
        number_of_slashings: 0,
        initial_validator_balance: 5,
        current_validator_balance: 5,
    };
    let score = v.ethereum_validator_score(9);
    assert!(is_fraction(score, 801, 10));
    assert_eq!(score.to_decimal_string(), "80.10");
}

#[test]
fn out_of_range_records_are_declined() {
    let v = Validator {
        total_blocks_signed: u64::MAX,
        total_blocks_assigned: u64::MAX,
        total_blocks_proposed: u64::MAX,
        total_blocks_proposed_included: u64::MAX,
        total_attestations_created: u64::MAX,
        total_attestations_included: u64::MAX,
        number_of_slashings: 0,
        initial_validator_balance: u64::MAX,
        current_validator_balance: u64::MAX,
    };
    assert_eq!(v.checked_ethereum_validator_score(u64::MAX), None);
    // the sub-scores are still exact
    assert!(is_fraction(v.uptime_score(), 100, 1));
    // and a zero divisor needs no arithmetic at all
    assert_eq!(v.checked_ethereum_validator_score(0), Some(Score::NotANumber));
}

#[test]
fn largest_record_within_range_matches_floating_point() {
    let v = Validator {
        total_blocks_signed: 131_000,
        total_blocks_assigned: 131_072,
        total_blocks_proposed: 4_000,
        total_blocks_proposed_included: 3_999,
        total_attestations_created: 131_072,
        total_attestations_included: 130_000,
        number_of_slashings: 2,
        initial_validator_balance: 32_000_000_000,
        current_validator_balance: 2_048_000_000_000,
    };
    let score = v.checked_ethereum_validator_score(1_000_000).expect("within range");
    let float = float_score(&v, 1_000_000);
    assert!((as_float(score) - float).abs() < 1e-9);
    assert_eq!(score.to_decimal_string(), format!("{:.2}", float));
}

#[test]
fn records_at_the_moderate_limits_are_scored() {
    let v = Validator {
        total_blocks_signed: COUNT_LIMIT,
        total_blocks_assigned: COUNT_LIMIT,
        total_blocks_proposed: COUNT_LIMIT,
        total_blocks_proposed_included: COUNT_LIMIT,
        total_attestations_created: COUNT_LIMIT,
        total_attestations_included: COUNT_LIMIT,
        number_of_slashings: COUNT_LIMIT,
        initial_validator_balance: BALANCE_LIMIT,
        current_validator_balance: BALANCE_LIMIT,
    };
    let score = v.checked_ethereum_validator_score(COUNT_LIMIT).expect("within limits");
    // 40 + 20 + 20 + 0 + 0
    assert!(is_fraction(score, 80, 1));
    assert_eq!(score.to_decimal_string(), "80.00");
    assert_eq!(v.ethereum_validator_score(COUNT_LIMIT), score);

    let mut least = v;
    least.total_blocks_signed = 0;
    least.total_blocks_proposed_included = 0;
    least.total_attestations_included = 0;
    least.current_validator_balance = 0;
    let score = least.checked_ethereum_validator_score(COUNT_LIMIT).expect("within limits");
    // 0 + 0 + 0 + 0 - 0.1
    assert!(is_fraction(score, -1, 10));
    assert_eq!(score.to_decimal_string(), "-0.10");
}

#[test]
fn a_denominator_just_beyond_128_bits_is_declined() {
    // 2^25 * 2^25 * 2^25 * 2^25 * 2^22 * 100 > 2^128
    let mut v = sample();
    v.total_blocks_assigned = 1 << 25;
    v.total_blocks_proposed = 1 << 25;
    v.total_attestations_created = 1 << 25;
    v.initial_validator_balance = 1 << 22;
    v.total_blocks_signed = 0;
    v.total_blocks_proposed_included = 0;
    v.total_attestations_included = 0;
    v.current_validator_balance = 0;
    assert_eq!(v.checked_ethereum_validator_score(1 << 25), None);
    // 2^25 * 2^25 * 2^25 * 2^21 * 2^15 * 100 < 2^127
    v.initial_validator_balance = 1 << 15;
    let score = v.checked_ethereum_validator_score(1 << 21).expect("within limits");
    // only the two constant tenths remain: 0.1 - 0.1
    assert!(is_fraction(score, 0, 1));
}
