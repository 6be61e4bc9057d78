//! The mathematical model of a score: a rational number extended by the two
//! infinities and by the undefined value that a division by zero produces.

use vstd::prelude::*;

verus! {

/// A value of the extended rational line.
///
/// `Finite { num, den }` stands for the fraction `num / den` and is only
/// meaningful with `den > 0`. The fraction is not reduced: two values with
/// different fields may stand for the same number, see [`Extended::same_number`].
pub enum Extended {
    Finite { num: int, den: int },
    PosInfinity,
    NegInfinity,
    NotANumber,
}

impl Extended {
    /// The quotient `n / d` for a divisor `d >= 0`. A zero divisor gives the
    /// infinity with the sign of `n`, and `0 / 0` is undefined.
    pub open spec fn ratio(n: int, d: int) -> Extended
        recommends
            d >= 0,
    {
        if d > 0 {
            Extended::Finite { num: n, den: d }
        } else if n > 0 {
            Extended::PosInfinity
        } else if n < 0 {
            Extended::NegInfinity
        } else {
            Extended::NotANumber
        }
    }

    pub open spec fn is_finite(self) -> bool {
        self is Finite
    }

    /// A finite value has a positive denominator; the others have no fields.
    pub open spec fn well_formed(self) -> bool {
        match self {
            Extended::Finite { num, den } => den > 0,
            _ => true,
        }
    }

    /// The product with a positive whole number `k`.
    pub open spec fn times(self, k: int) -> Extended
        recommends
            k > 0,
    {
        match self {
            Extended::Finite { num, den } => Extended::Finite { num: num * k, den },
            other => other,
        }
    }

    /// The quotient by a positive whole number `k`.
    pub open spec fn over(self, k: int) -> Extended
        recommends
            k > 0,
    {
        match self {
            Extended::Finite { num, den } => Extended::Finite { num, den: den * k },
            other => other,
        }
    }

    /// The difference `1 - self`.
    pub open spec fn complement(self) -> Extended {
        match self {
            Extended::Finite { num, den } => Extended::Finite { num: den - num, den },
            Extended::PosInfinity => Extended::NegInfinity,
            Extended::NegInfinity => Extended::PosInfinity,
            Extended::NotANumber => Extended::NotANumber,
        }
    }

    /// The sum of two values. Infinities of opposite sign cancel to the
    /// undefined value, which in turn absorbs everything.
    pub open spec fn plus(self, other: Extended) -> Extended {
        match (self, other) {
            (Extended::NotANumber, _) => Extended::NotANumber,
            (_, Extended::NotANumber) => Extended::NotANumber,
            (Extended::PosInfinity, Extended::NegInfinity) => Extended::NotANumber,
            (Extended::NegInfinity, Extended::PosInfinity) => Extended::NotANumber,
            (Extended::PosInfinity, _) => Extended::PosInfinity,
            (_, Extended::PosInfinity) => Extended::PosInfinity,
            (Extended::NegInfinity, _) => Extended::NegInfinity,
            (_, Extended::NegInfinity) => Extended::NegInfinity,
            (Extended::Finite { num: n1, den: d1 }, Extended::Finite { num: n2, den: d2 }) =>
                Extended::Finite { num: n1 * d2 + n2 * d1, den: d1 * d2 },
        }
    }

    /// Whether two values stand for the same point of the extended line:
    /// the same non-finite value, or fractions that agree after cross
    /// multiplication.
    pub open spec fn same_number(self, other: Extended) -> bool {
        match (self, other) {
            (Extended::Finite { num: n1, den: d1 }, Extended::Finite { num: n2, den: d2 }) =>
                n1 * d2 == n2 * d1,
            (Extended::PosInfinity, Extended::PosInfinity) => true,
            (Extended::NegInfinity, Extended::NegInfinity) => true,
            (Extended::NotANumber, Extended::NotANumber) => true,
            _ => false,
        }
    }

    /// Whether the value is the number zero.
    pub open spec fn is_zero(self) -> bool {
        match self {
            Extended::Finite { num, den } => num == 0,
            _ => false,
        }
    }
}

/// A sum is finite exactly when both of its terms are.
pub proof fn lemma_plus_finite(x: Extended, y: Extended)
    ensures
        x.plus(y).is_finite() <==> x.is_finite() && y.is_finite(),
{
}

/// Scaling by a whole number, dividing by one and taking the complement all
/// keep a value finite or non-finite as it was.
pub proof fn lemma_scaling_keeps_finiteness(x: Extended, k: int)
    ensures
        x.times(k).is_finite() <==> x.is_finite(),
        x.over(k).is_finite() <==> x.is_finite(),
        x.complement().is_finite() <==> x.is_finite(),
{
}

} // verus!
