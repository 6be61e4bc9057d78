//! The executable score: an exact fraction of machine integers, or one of
//! the three non-finite outcomes.

use vstd::prelude::*;
use vstd::string::StringExecFns;
use crate::decimal::{push_decimal, digit_str, round_to_hundredths};
use crate::extended::Extended;

verus! {

/// A score as the scoring functions return it.
///
/// The finite case is the fraction `numerator / denominator`, kept as it was
/// computed and not reduced. Its mathematical value is the view, an
/// [`Extended`].
#[derive(Clone, Copy, Debug, PartialEq, Eq, Structural)]
pub enum Score {
    Finite { numerator: i128, denominator: u128 },
    PosInfinity,
    NegInfinity,
    NotANumber,
}

impl View for Score {
    type V = Extended;

    open spec fn view(&self) -> Extended {
        match *self {
            Score::Finite { numerator, denominator } => Extended::Finite {
                num: numerator as int,
                den: denominator as int,
            },
            Score::PosInfinity => Extended::PosInfinity,
            Score::NegInfinity => Extended::NegInfinity,
            Score::NotANumber => Extended::NotANumber,
        }
    }
}

/// The absolute value of a signed number, which always fits the unsigned
/// type of the same width.
pub fn magnitude(n: i128) -> (m: u128)
    ensures
        m == (if n < 0 { -n } else { n as int }),
{
    if n >= 0 {
        n as u128
    } else {
        (-(n + 1)) as u128 + 1
    }
}

/// The line that reports a score: a fixed label, then the score with two
/// decimal places.
pub open spec fn report_text(score: Extended) -> Seq<char> {
    "Ethereum Validator Score: "@ + score.text()
}

/// Writes the line that reports `score`, without a line break.
pub fn report_line(score: &Score) -> (line: String)
    requires
        score.well_formed(),
    ensures
        line@ == report_text(score@),
{
    let value = score.to_decimal_string();
    String::from_str("Ethereum Validator Score: ").concat(value.as_str())
}

impl Score {
    /// A finite score has a positive denominator.
    pub open spec fn well_formed(&self) -> bool {
        self@.well_formed()
    }

    /// The quotient of a whole number by a divisor that may be zero.
    pub fn ratio(n: i128, d: u128) -> (score: Score)
        ensures
            score@ == Extended::ratio(n as int, d as int),
            score.well_formed(),
    {
        if d > 0 {
            Score::Finite { numerator: n, denominator: d }
        } else if n > 0 {
            Score::PosInfinity
        } else if n < 0 {
            Score::NegInfinity
        } else {
            Score::NotANumber
        }
    }

    /// Whether the score is a number, neither infinite nor undefined.
    pub fn is_finite(&self) -> (finite: bool)
        ensures
            finite == self@.is_finite(),
    {
        match self {
            Score::Finite { .. } => true,
            _ => false,
        }
    }

    /// The score written with two decimal places, rounded to the nearest
    /// hundredth with ties to even; `inf`, `-inf` or `NaN` where it is not
    /// finite.
    pub fn to_decimal_string(&self) -> (text: String)
        requires
            self.well_formed(),
        ensures
            text@ == self@.text(),
    {
        match *self {
            Score::Finite { numerator, denominator } => {
                let h = round_to_hundredths(magnitude(numerator), denominator);
                let mut text = String::new();
                if numerator < 0 {
                    proof {
                        reveal_strlit("-");
                    }
                    text.append("-");
                }
                push_decimal(&mut text, h.whole);
                proof {
                    reveal_strlit(".");
                }
                text.append(".");
                text.append(digit_str(h.tenths));
                text.append(digit_str(h.last));
                proof {
                    let total = h.total();
                    assert(total / 100 == h.whole);
                    assert(total / 10 % 10 == h.tenths);
                    assert(total % 10 == h.last);
                    assert(text@ =~= self@.text());
                }
                text
            },
            Score::PosInfinity => {
                proof {
                    reveal_strlit("inf");
                }
                let text = String::from_str("inf");
                assert(text@ =~= self@.text());
                text
            },
            Score::NegInfinity => {
                proof {
                    reveal_strlit("-inf");
                }
                let text = String::from_str("-inf");
                assert(text@ =~= self@.text());
                text
            },
            Score::NotANumber => {
                proof {
                    reveal_strlit("NaN");
                }
                let text = String::from_str("NaN");
                assert(text@ =~= self@.text());
                text
            },
        }
    }
}

} // verus!
