//! The validator record, its five sub-scores and the composite score.

use vstd::prelude::*;
use vstd::arithmetic::mul::lemma_mul_is_associative;
use vstd::arithmetic::overflow::CheckedU128;
use crate::extended::Extended;
use crate::score::Score;

verus! {

/// The factor that turns a ratio into a percentage.
pub const PERCENT: u64 = 100;

/// The weight of the uptime score, in hundredths.
pub const UPTIME_WEIGHT: u64 = 40;

/// The weight of the proposal inclusion rate, in hundredths.
pub const PROPOSAL_WEIGHT: u64 = 20;

/// The weight of the attestation inclusion rate, in hundredths.
pub const ATTESTATION_WEIGHT: u64 = 20;

/// The weight of the slashing prevention factor, in hundredths.
pub const SLASHING_WEIGHT: u64 = 10;

/// The weight of the balance growth, in hundredths.
pub const BALANCE_WEIGHT: u64 = 10;

/// What the five weights are hundredths of.
pub const WEIGHT_TOTAL: u64 = 100;

/// The weighted mean of the five sub-scores: each multiplied by its weight,
/// added up in the order given, and divided by the total of the weights.
pub open spec fn weighted_sum(
    uptime: Extended,
    proposals: Extended,
    attestations: Extended,
    slashing: Extended,
    growth: Extended,
) -> Extended {
    uptime.times(UPTIME_WEIGHT as int).plus(proposals.times(PROPOSAL_WEIGHT as int)).plus(
        attestations.times(ATTESTATION_WEIGHT as int),
    ).plus(slashing.times(SLASHING_WEIGHT as int)).plus(growth.times(BALANCE_WEIGHT as int)).over(
        WEIGHT_TOTAL as int,
    )
}

/// A count up to which every record is scored within the machine's limits.
pub const COUNT_LIMIT: u64 = 262_144;

/// A balance up to which every record is scored within the machine's limits.
pub const BALANCE_LIMIT: u64 = 4_398_046_511_104;

/// The counters and balances of one validator.
///
/// Balances are whole numbers of the smallest currency unit. Nothing is
/// assumed of the fields: a count may exceed the count it is a part of, and
/// any of them may be zero.
#[derive(Clone, Copy, Debug, PartialEq, Eq, Structural)]
pub struct Validator {
    /// Blocks signed by the validator.
    pub total_blocks_signed: u64,
    /// Blocks assigned to the validator.
    pub total_blocks_assigned: u64,
    /// Blocks proposed by the validator.
    pub total_blocks_proposed: u64,
    /// Proposed blocks that were included in the chain.
    pub total_blocks_proposed_included: u64,
    /// Attestations created by the validator.
    pub total_attestations_created: u64,
    /// Attestations that were included in the chain.
    pub total_attestations_included: u64,
    /// Slashings the validator has undergone.
    pub number_of_slashings: u64,
    /// The balance with which the validator joined.
    pub initial_validator_balance: u64,
    /// The balance now.
    pub current_validator_balance: u64,
}

impl Validator {
    /// Signed blocks over assigned blocks, as a percentage.
    pub open spec fn spec_uptime_score(&self) -> Extended {
        Extended::ratio(self.total_blocks_signed as int, self.total_blocks_assigned as int).times(
            PERCENT as int,
        )
    }

    /// Included proposals over proposals, as a percentage.
    pub open spec fn spec_proposal_inclusion_rate(&self) -> Extended {
        Extended::ratio(
            self.total_blocks_proposed_included as int,
            self.total_blocks_proposed as int,
        ).times(PERCENT as int)
    }

    /// Included attestations over created attestations, as a percentage.
    pub open spec fn spec_attestation_inclusion_rate(&self) -> Extended {
        Extended::ratio(
            self.total_attestations_included as int,
            self.total_attestations_created as int,
        ).times(PERCENT as int)
    }

    /// One minus the share of slashings among all validators.
    pub open spec fn spec_slashing_prevention(&self, total_validators: u64) -> Extended {
        Extended::ratio(self.number_of_slashings as int, total_validators as int).complement()
    }

    /// The gain in balance over the initial balance, as a plain ratio.
    pub open spec fn spec_balance_growth(&self) -> Extended {
        Extended::ratio(
            self.current_validator_balance - self.initial_validator_balance,
            self.initial_validator_balance as int,
        )
    }

    /// The composite score: the weighted mean of the five sub-scores.
    pub open spec fn spec_ethereum_validator_score(&self, total_validators: u64) -> Extended {
        weighted_sum(
            self.spec_uptime_score(),
            self.spec_proposal_inclusion_rate(),
            self.spec_attestation_inclusion_rate(),
            self.spec_slashing_prevention(total_validators),
            self.spec_balance_growth(),
        )
    }

    /// Whether none of the five divisors is zero.
    pub open spec fn divisors_nonzero(&self, total_validators: u64) -> bool {
        &&& self.total_blocks_assigned != 0
        &&& self.total_blocks_proposed != 0
        &&& self.total_attestations_created != 0
        &&& total_validators != 0
        &&& self.initial_validator_balance != 0
    }

    /// The product of the five divisors and the total of the weights: the
    /// denominator of the composite score.
    pub open spec fn common_denominator(&self, total_validators: u64) -> int {
        self.total_blocks_assigned * self.total_blocks_proposed * self.total_attestations_created
            * total_validators * self.initial_validator_balance * WEIGHT_TOTAL
    }

    /// What is added into the numerator of the composite score, over the
    /// common denominator.
    pub open spec fn credit(&self, total_validators: u64) -> int {
        let a = self.total_blocks_assigned as int;
        let p = self.total_blocks_proposed as int;
        let c = self.total_attestations_created as int;
        let t = total_validators as int;
        let b = self.initial_validator_balance as int;
        self.total_blocks_signed * PERCENT * UPTIME_WEIGHT * (p * c * t * b)
            + self.total_blocks_proposed_included * PERCENT * PROPOSAL_WEIGHT * (a * c * t * b)
            + self.total_attestations_included * PERCENT * ATTESTATION_WEIGHT * (a * p * t * b)
            + t * SLASHING_WEIGHT * (a * p * c * b)
            + self.current_validator_balance * BALANCE_WEIGHT * (a * p * c * t)
    }

    /// What is taken out of the numerator of the composite score, over the
    /// common denominator.
    pub open spec fn debit(&self, total_validators: u64) -> int {
        let a = self.total_blocks_assigned as int;
        let p = self.total_blocks_proposed as int;
        let c = self.total_attestations_created as int;
        let t = total_validators as int;
        let b = self.initial_validator_balance as int;
        self.number_of_slashings * SLASHING_WEIGHT * (a * p * c * b)
            + b * BALANCE_WEIGHT * (a * p * c * t)
    }

    /// Whether the composite score can be held in machine integers: with no
    /// divisor zero, the common denominator fits 128 bits without a sign, and
    /// credit and debit each fit 128 bits with one. A score that is not
    /// finite holds no number and is always within limits.
    pub open spec fn within_limits(&self, total_validators: u64) -> bool {
        self.divisors_nonzero(total_validators) ==> {
            &&& self.common_denominator(total_validators) <= u128::MAX
            &&& self.credit(total_validators) <= i128::MAX
            &&& self.debit(total_validators) <= i128::MAX
        }
    }

    /// Whether no count exceeds [`COUNT_LIMIT`] and no balance
    /// [`BALANCE_LIMIT`].
    pub open spec fn moderate(&self, total_validators: u64) -> bool {
        &&& self.total_blocks_signed <= COUNT_LIMIT
        &&& self.total_blocks_assigned <= COUNT_LIMIT
        &&& self.total_blocks_proposed <= COUNT_LIMIT
        &&& self.total_blocks_proposed_included <= COUNT_LIMIT
        &&& self.total_attestations_created <= COUNT_LIMIT
        &&& self.total_attestations_included <= COUNT_LIMIT
        &&& self.number_of_slashings <= COUNT_LIMIT
        &&& total_validators <= COUNT_LIMIT
        &&& self.initial_validator_balance <= BALANCE_LIMIT
        &&& self.current_validator_balance <= BALANCE_LIMIT
    }

    /// The uptime score: signed blocks over assigned blocks, as a percentage.
    pub fn uptime_score(&self) -> (score: Score)
        ensures
            score@ == self.spec_uptime_score(),
            score.well_formed(),
    {
        proof {
            lemma_percentage_fits(self.total_blocks_signed);
        }
        Score::ratio(
            self.total_blocks_signed as i128 * PERCENT as i128,
            self.total_blocks_assigned as u128,
        )
    }

    /// The proposal inclusion rate: included proposals over proposals, as a
    /// percentage.
    pub fn proposal_inclusion_rate(&self) -> (score: Score)
        ensures
            score@ == self.spec_proposal_inclusion_rate(),
            score.well_formed(),
    {
        proof {
            lemma_percentage_fits(self.total_blocks_proposed_included);
        }
        Score::ratio(
            self.total_blocks_proposed_included as i128 * PERCENT as i128,
            self.total_blocks_proposed as u128,
        )
    }

    /// The attestation inclusion rate: included attestations over created
    /// attestations, as a percentage.
    pub fn attestation_inclusion_rate(&self) -> (score: Score)
        ensures
            score@ == self.spec_attestation_inclusion_rate(),
            score.well_formed(),
    {
        proof {
            lemma_percentage_fits(self.total_attestations_included);
        }
        Score::ratio(
            self.total_attestations_included as i128 * PERCENT as i128,
            self.total_attestations_created as u128,
        )
    }

    /// The slashing prevention factor: one minus the share of slashings
    /// among `total_validators`.
    pub fn slashing_prevention(&self, total_validators: u64) -> (score: Score)
        ensures
            score@ == self.spec_slashing_prevention(total_validators),
            score.well_formed(),
    {
        if total_validators > 0 {
            Score::Finite {
                numerator: total_validators as i128 - self.number_of_slashings as i128,
                denominator: total_validators as u128,
            }
        } else if self.number_of_slashings > 0 {
            Score::NegInfinity
        } else {
            Score::NotANumber
        }
    }

    /// The balance growth: the gain over the initial balance, as a plain
    /// ratio and not as a percentage.
    pub fn balance_growth(&self) -> (score: Score)
        ensures
            score@ == self.spec_balance_growth(),
            score.well_formed(),
    {
        Score::ratio(
            self.current_validator_balance as i128 - self.initial_validator_balance as i128,
            self.initial_validator_balance as u128,
        )
    }

    /// The composite score, or `None` where it is finite and does not fit
    /// the machine integers of a [`Score`].
    pub fn checked_ethereum_validator_score(&self, total_validators: u64) -> (score: Option<Score>)
        ensures
            score is Some <==> self.within_limits(total_validators),
            score matches Some(s) ==> s@ == self.spec_ethereum_validator_score(total_validators)
                && s.well_formed(),
    {
        let uptime = self.uptime_score();
        let proposals = self.proposal_inclusion_rate();
        let attestations = self.attestation_inclusion_rate();
        let slashing = self.slashing_prevention(total_validators);
        let growth = self.balance_growth();
        if !(uptime.is_finite() && proposals.is_finite() && attestations.is_finite()
            && slashing.is_finite() && growth.is_finite()) {
            return Some(non_finite_sum(uptime, proposals, attestations, slashing, growth));
        }
        let a: u128 = self.total_blocks_assigned as u128;
        let p: u128 = self.total_blocks_proposed as u128;
        let c: u128 = self.total_attestations_created as u128;
        let t: u128 = total_validators as u128;
        let b: u128 = self.initial_validator_balance as u128;
        let ap = CheckedU128::new(a).mul_value(p);
        let apc = ap.mul_value(c);
        let apct = apc.mul_value(t);
        let apcb = apc.mul_value(b);
        let aptb = ap.mul_value(t).mul_value(b);
        let actb = CheckedU128::new(a).mul_value(c).mul_value(t).mul_value(b);
        let pctb = CheckedU128::new(p).mul_value(c).mul_value(t).mul_value(b);
        let den = apct.mul_value(b).mul_value(WEIGHT_TOTAL as u128);
        let uptime_part = CheckedU128::new(self.total_blocks_signed as u128).mul_value(
            PERCENT as u128,
        ).mul_value(UPTIME_WEIGHT as u128).mul_checked(&pctb);
        let proposal_part = CheckedU128::new(self.total_blocks_proposed_included as u128).mul_value(
            PERCENT as u128,
        ).mul_value(PROPOSAL_WEIGHT as u128).mul_checked(&actb);
        let attestation_part = CheckedU128::new(self.total_attestations_included as u128).mul_value(
            PERCENT as u128,
        ).mul_value(ATTESTATION_WEIGHT as u128).mul_checked(&aptb);
        let whole_part = CheckedU128::new(t).mul_value(SLASHING_WEIGHT as u128).mul_checked(&apcb);
        let balance_part = CheckedU128::new(self.current_validator_balance as u128).mul_value(
            BALANCE_WEIGHT as u128,
        ).mul_checked(&apct);
        let slashed_part = CheckedU128::new(self.number_of_slashings as u128).mul_value(
            SLASHING_WEIGHT as u128,
        ).mul_checked(&apcb);
        let stake_part = CheckedU128::new(b).mul_value(BALANCE_WEIGHT as u128).mul_checked(&apct);
        let credit = uptime_part.add_checked(&proposal_part).add_checked(
            &attestation_part,
        ).add_checked(&whole_part).add_checked(&balance_part);
        let debit = slashed_part.add_checked(&stake_part);
        proof {
            lemma_score_as_fraction(*self, total_validators);
            assert(den@ == self.common_denominator(total_validators));
            assert(credit@ == self.credit(total_validators));
            assert(debit@ == self.debit(total_validators));
        }
        if den.is_overflowed() || credit.is_overflowed() || debit.is_overflowed() {
            return None;
        }
        let denominator: u128 = den.unwrap();
        let added: u128 = credit.unwrap();
        let taken: u128 = debit.unwrap();
        if added > i128::MAX as u128 || taken > i128::MAX as u128 {
            return None;
        }
        Some(Score::Finite { numerator: added as i128 - taken as i128, denominator })
    }

    /// The composite score of the validator among `total_validators`.
    pub fn ethereum_validator_score(&self, total_validators: u64) -> (score: Score)
        requires
            self.within_limits(total_validators),
        ensures
            score@ == self.spec_ethereum_validator_score(total_validators),
            score.well_formed(),
    {
        self.checked_ethereum_validator_score(total_validators).unwrap()
    }
}

/// The weighted mean of five sub-scores of which at least one is not finite:
/// undefined if one of them is, or if infinities of both signs occur, and
/// else the infinity that occurs.
fn non_finite_sum(
    uptime: Score,
    proposals: Score,
    attestations: Score,
    slashing: Score,
    growth: Score,
) -> (total: Score)
    requires
        !(uptime@.is_finite() && proposals@.is_finite() && attestations@.is_finite()
            && slashing@.is_finite() && growth@.is_finite()),
    ensures
        total@ == weighted_sum(uptime@, proposals@, attestations@, slashing@, growth@),
{
    let terms = [uptime, proposals, attestations, slashing, growth];
    let mut undefined = false;
    let mut rising = false;
    let mut falling = false;
    let mut i: usize = 0;
    while i < 5
        invariant
            i <= 5,
            terms@ == seq![uptime, proposals, attestations, slashing, growth],
            undefined <==> exists|k: int| 0 <= k < i && terms@[k] == Score::NotANumber,
            rising <==> exists|k: int| 0 <= k < i && terms@[k] == Score::PosInfinity,
            falling <==> exists|k: int| 0 <= k < i && terms@[k] == Score::NegInfinity,
        decreases 5 - i,
    {
        match terms[i] {
            Score::NotANumber => {
                undefined = true;
            },
            Score::PosInfinity => {
                rising = true;
            },
            Score::NegInfinity => {
                falling = true;
            },
            Score::Finite { .. } => {},
        }
        i = i + 1;
    }
    if undefined || (rising && falling) {
        Score::NotANumber
    } else if rising {
        Score::PosInfinity
    } else {
        Score::NegInfinity
    }
}

/// The five weights add up to the whole.
pub proof fn lemma_weights_add_up()
    ensures
        UPTIME_WEIGHT + PROPOSAL_WEIGHT + ATTESTATION_WEIGHT + SLASHING_WEIGHT + BALANCE_WEIGHT
            == WEIGHT_TOTAL,
{
}

/// The composite score is finite exactly when none of the five divisors is
/// zero: a sub-score that is not finite is never lost in the sum.
pub proof fn lemma_finite_iff_divisors_nonzero(v: Validator, total_validators: u64)
    ensures
        v.spec_ethereum_validator_score(total_validators).is_finite() <==> v.divisors_nonzero(
            total_validators,
        ),
{
}

/// With no block assigned the uptime score is infinite or undefined, and the
/// composite score is not finite either.
pub proof fn lemma_no_assigned_blocks(v: Validator, total_validators: u64)
    requires
        v.total_blocks_assigned == 0,
    ensures
        v.spec_uptime_score() == Extended::PosInfinity || v.spec_uptime_score()
            == Extended::NotANumber,
        !v.spec_ethereum_validator_score(total_validators).is_finite(),
{
}

/// A validator slashed as often as there are validators has a slashing
/// prevention factor of exactly zero, provided there is a validator at all.
pub proof fn lemma_slashed_throughout(v: Validator, total_validators: u64)
    requires
        v.number_of_slashings == total_validators,
        total_validators > 0,
    ensures
        v.spec_slashing_prevention(total_validators).is_zero(),
{
}

/// A balance that has not changed is a growth of exactly zero, provided the
/// initial balance is not zero.
pub proof fn lemma_unchanged_balance(v: Validator)
    requires
        v.current_validator_balance == v.initial_validator_balance,
        v.initial_validator_balance > 0,
    ensures
        v.spec_balance_growth().is_zero(),
{
}

/// A count taken a hundredfold is far from the limits of the wider type.
proof fn lemma_percentage_fits(n: u64)
    ensures
        0 <= n * PERCENT <= i128::MAX,
{
    assert(0 <= n * PERCENT <= i128::MAX) by (nonlinear_arith)
        requires
            0 <= n <= u64::MAX,
            PERCENT == 100,
    ;
}

/// A product of two bounded factors is bounded by the product of the bounds.
proof fn lemma_product_bound(x: int, x_max: int, y: int, y_max: int)
    by (nonlinear_arith)
    requires
        0 <= x <= x_max,
        0 <= y <= y_max,
    ensures
        0 <= x * y <= x_max * y_max,
{
}

/// A weighted count times the product of four divisors is bounded by the
/// product of the bounds.
proof fn lemma_term_bound(
    u: int,
    u_max: int,
    w: int,
    w_max: int,
    x: int,
    x_max: int,
    y: int,
    y_max: int,
    z: int,
    z_max: int,
)
    requires
        0 <= u <= u_max,
        0 <= w <= w_max,
        0 <= x <= x_max,
        0 <= y <= y_max,
        0 <= z <= z_max,
    ensures
        0 <= w * x * y * z <= w_max * x_max * y_max * z_max,
        0 <= u * (w * x * y * z) <= u_max * (w_max * x_max * y_max * z_max),
{
    lemma_product_bound(w, w_max, x, x_max);
    lemma_product_bound(w * x, w_max * x_max, y, y_max);
    lemma_product_bound(w * x * y, w_max * x_max * y_max, z, z_max);
    lemma_product_bound(u, u_max, w * x * y * z, w_max * x_max * y_max * z_max);
}

/// A record whose counts and balances are moderate is within the limits of
/// the composite score.
pub proof fn lemma_moderate_records_fit(v: Validator, total_validators: u64)
    requires
        v.moderate(total_validators),
    ensures
        v.within_limits(total_validators),
{
    let n: int = 262_144;
    let m: int = 4_398_046_511_104;
    let a = v.total_blocks_assigned as int;
    let p = v.total_blocks_proposed as int;
    let c = v.total_attestations_created as int;
    let t = total_validators as int;
    let b = v.initial_validator_balance as int;
    let u1 = v.total_blocks_signed * PERCENT * UPTIME_WEIGHT;
    let u2 = v.total_blocks_proposed_included * PERCENT * PROPOSAL_WEIGHT;
    let u3 = v.total_attestations_included * PERCENT * ATTESTATION_WEIGHT;
    let u4 = t * SLASHING_WEIGHT;
    let u5 = v.current_validator_balance * BALANCE_WEIGHT;
    let u6 = v.number_of_slashings * SLASHING_WEIGHT;
    let u7 = b * BALANCE_WEIGHT;
    assert(0 <= u1 <= 4000 * n && 0 <= u2 <= 2000 * n && 0 <= u3 <= 2000 * n);
    assert(0 <= u4 <= 10 * n && 0 <= u5 <= 10 * m && 0 <= u6 <= 10 * n && 0 <= u7 <= 10 * m);
    lemma_term_bound(u1, 4000 * n, p, n, c, n, t, n, b, m);
    lemma_term_bound(u2, 2000 * n, a, n, c, n, t, n, b, m);
    lemma_term_bound(u3, 2000 * n, a, n, p, n, t, n, b, m);
    lemma_term_bound(u4, 10 * n, a, n, p, n, c, n, b, m);
    lemma_term_bound(u5, 10 * m, a, n, p, n, c, n, t, n);
    lemma_term_bound(u6, 10 * n, a, n, p, n, c, n, b, m);
    lemma_term_bound(u7, 10 * m, a, n, p, n, c, n, t, n);
    lemma_product_bound(a * p * c * t, n * n * n * n, b, m);
    lemma_product_bound(a * p * c * t * b, n * n * n * n * m, WEIGHT_TOTAL as int, 100);
}

/// A sum of up to five terms times a factor is the sum of the products.
proof fn lemma_sum_times(x1: int, x2: int, x3: int, x4: int, x5: int, k: int)
    by (nonlinear_arith)
    ensures
        (x1 + x2 + x3 + x4 + x5) * k == x1 * k + x2 * k + x3 * k + x4 * k + x5 * k,
{
}

/// A negated factor negates the product.
proof fn lemma_negated_times(x: int, k: int)
    by (nonlinear_arith)
    ensures
        (-x) * k == -(x * k),
{
}

/// With no divisor zero, the composite score is the fraction of
/// `credit - debit` over the common denominator.
pub proof fn lemma_score_as_fraction(v: Validator, total_validators: u64)
    requires
        v.divisors_nonzero(total_validators),
    ensures
        v.spec_ethereum_validator_score(total_validators) == (Extended::Finite {
            num: v.credit(total_validators) - v.debit(total_validators),
            den: v.common_denominator(total_validators),
        }),
        v.common_denominator(total_validators) > 0,
{
    let a = v.total_blocks_assigned as int;
    let p = v.total_blocks_proposed as int;
    let c = v.total_attestations_created as int;
    let t = total_validators as int;
    let b = v.initial_validator_balance as int;
    let s = v.total_blocks_signed as int;
    let pi = v.total_blocks_proposed_included as int;
    let ai = v.total_attestations_included as int;
    let sl = v.number_of_slashings as int;
    let cur = v.current_validator_balance as int;
    let u1 = s * PERCENT * UPTIME_WEIGHT;
    let u2 = pi * PERCENT * PROPOSAL_WEIGHT;
    let u3 = ai * PERCENT * ATTESTATION_WEIGHT;
    let x = a * p * c;
    let y = a * p * c * t;
    let n2 = u1 * p + u2 * a;
    let n3 = n2 * c + u3 * (a * p);
    let n4 = n3 * t + ((t - sl) * 10) * x;
    let n5 = n4 * b + ((cur - b) * 10) * y;
    // n3, term by term
    lemma_sum_times(u1 * p, u2 * a, 0, 0, 0, c);
    lemma_mul_is_associative(u1, p, c);
    lemma_mul_is_associative(u2, a, c);
    assert(n3 == u1 * (p * c) + u2 * (a * c) + u3 * (a * p));
    // n3 * t
    lemma_sum_times(u1 * (p * c), u2 * (a * c), u3 * (a * p), 0, 0, t);
    lemma_mul_is_associative(u1, p * c, t);
    lemma_mul_is_associative(u2, a * c, t);
    lemma_mul_is_associative(u3, a * p, t);
    let t1 = u1 * (p * c * t);
    let t2 = u2 * (a * c * t);
    let t3 = u3 * (a * p * t);
    assert(n3 * t == t1 + t2 + t3);
    // the slashing term
    lemma_sum_times(10 * t, -(10 * sl), 0, 0, 0, x);
    lemma_negated_times(10 * sl, x);
    let t4 = (10 * t) * x;
    let t5 = (10 * sl) * x;
    assert(n4 == t1 + t2 + t3 + t4 - t5);
    // n4 * b
    lemma_sum_times(t1, t2, t3, t4, -t5, b);
    lemma_negated_times(t5, b);
    lemma_mul_is_associative(u1, p * c * t, b);
    lemma_mul_is_associative(u2, a * c * t, b);
    lemma_mul_is_associative(u3, a * p * t, b);
    lemma_mul_is_associative(10 * t, x, b);
    lemma_mul_is_associative(10 * sl, x, b);
    // the balance term
    lemma_sum_times(10 * cur, -(10 * b), 0, 0, 0, y);
    lemma_negated_times(10 * b, y);
    let a1 = p * c * t * b;
    let a2 = a * c * t * b;
    let a3 = a * p * t * b;
    assert(n4 * b == u1 * a1 + u2 * a2 + u3 * a3 + (10 * t) * (x * b) - (10 * sl) * (x * b));
    assert(n5 == u1 * a1 + u2 * a2 + u3 * a3 + (10 * t) * (x * b) - (10 * sl) * (x * b) + (10 * cur)
        * y - (10 * b) * y);
    assert(v.debit(total_validators) == (10 * sl) * (x * b) + (10 * b) * y);
    assert(v.credit(total_validators) == u1 * a1 + u2 * a2 + u3 * a3 + (10 * t) * (x * b) + (10
        * cur) * y);
    assert(n5 == v.credit(total_validators) - v.debit(total_validators));
    assert(a * p > 0) by (nonlinear_arith)
        requires
            a > 0,
            p > 0,
    ;
    assert(a * p * c > 0) by (nonlinear_arith)
        requires
            a * p > 0,
            c > 0,
    ;
    assert(a * p * c * t > 0) by (nonlinear_arith)
        requires
            a * p * c > 0,
            t > 0,
    ;
    assert(a * p * c * t * b > 0) by (nonlinear_arith)
        requires
            a * p * c * t > 0,
            b > 0,
    ;
    assert(a * p * c * t * b * WEIGHT_TOTAL > 0) by (nonlinear_arith)
        requires
            a * p * c * t * b > 0,
            WEIGHT_TOTAL > 0,
    ;
}

} // verus!
