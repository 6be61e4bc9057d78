//! Decimal text with two places after the point.
//!
//! A fraction is rounded to the nearest hundredth, a tie going to the even
//! neighbour, and written as its whole part, a point and two digits. The
//! sign is that of the fraction itself, so a small negative value is written
//! `-0.00`.

use vstd::prelude::*;
use vstd::arithmetic::div_mod::{lemma_fundamental_div_mod, lemma_fundamental_div_mod_converse};
use vstd::string::StringExecFns;
use crate::extended::Extended;

verus! {

/// The character of a single decimal digit.
pub open spec fn digit_char(d: int) -> char
    recommends
        0 <= d < 10,
{
    if d == 0 {
        '0'
    } else if d == 1 {
        '1'
    } else if d == 2 {
        '2'
    } else if d == 3 {
        '3'
    } else if d == 4 {
        '4'
    } else if d == 5 {
        '5'
    } else if d == 6 {
        '6'
    } else if d == 7 {
        '7'
    } else if d == 8 {
        '8'
    } else {
        '9'
    }
}

/// Whether a character is one of the ten decimal digits.
pub open spec fn is_digit(c: char) -> bool {
    c == '0' || c == '1' || c == '2' || c == '3' || c == '4' || c == '5' || c == '6' || c == '7'
        || c == '8' || c == '9'
}

/// The decimal digits of a natural number, most significant first, without
/// leading zeros (zero itself is the single digit `0`).
pub open spec fn decimal_digits(n: nat) -> Seq<char>
    decreases n,
{
    if n < 10 {
        seq![digit_char(n as int)]
    } else {
        decimal_digits(n / 10).push(digit_char((n % 10) as int))
    }
}

/// The whole number nearest to `n / d`; of two equally near ones, the even.
pub open spec fn round_half_even(n: nat, d: nat) -> nat
    recommends
        d > 0,
{
    let q = n / d;
    let r = n % d;
    if 2 * r > d || (2 * r == d && q % 2 == 1) {
        q + 1
    } else {
        q
    }
}

/// The magnitude of the fraction `num / den` in hundredths, rounded.
pub open spec fn hundredths(num: int, den: int) -> nat
    recommends
        den > 0,
{
    round_half_even((100 * (if num < 0 { -num } else { num })) as nat, den as nat)
}

/// The text of a count of hundredths: an optional minus sign, the digits of
/// the whole part, a point, and exactly two digits.
pub open spec fn fixed_text(negative: bool, h: nat) -> Seq<char> {
    let sign = if negative { seq!['-'] } else { Seq::<char>::empty() };
    sign + decimal_digits(h / 100) + seq!['.', digit_char((h / 10 % 10) as int), digit_char((h % 10) as int)]
}

impl Extended {
    /// The value written with two decimal places. The non-finite values are
    /// written `inf`, `-inf` and `NaN`.
    pub open spec fn text(self) -> Seq<char> {
        match self {
            Extended::Finite { num, den } => fixed_text(num < 0, hundredths(num, den)),
            Extended::PosInfinity => seq!['i', 'n', 'f'],
            Extended::NegInfinity => seq!['-', 'i', 'n', 'f'],
            Extended::NotANumber => seq!['N', 'a', 'N'],
        }
    }
}

/// The digits of a number are at least one, and each is a decimal digit.
pub proof fn lemma_decimal_digits(n: nat)
    ensures
        decimal_digits(n).len() >= 1,
        forall|i: int| 0 <= i < decimal_digits(n).len() ==> is_digit(#[trigger] decimal_digits(n)[i]),
    decreases n,
{
    if n >= 10 {
        lemma_decimal_digits(n / 10);
    }
}

/// The text of a finite value always shows exactly two digits after the
/// decimal point, whatever its magnitude and sign: the third character from
/// the end is the only point, the two after it are digits, and before it
/// stand digits only, but for a minus sign in the first place.
pub proof fn lemma_two_decimal_places(x: Extended)
    requires
        x.is_finite(),
    ensures
        ({
            let text = x.text();
            let n = text.len() as int;
            &&& n >= 4
            &&& text[n - 3] == '.'
            &&& is_digit(text[n - 2])
            &&& is_digit(text[n - 1])
            &&& forall|i: int|
                0 <= i < n - 3 ==> is_digit(#[trigger] text[i]) || (i == 0 && text[i] == '-')
            &&& is_digit(text[n - 4])
        }),
{
    if let Extended::Finite { num, den } = x {
        let h = hundredths(num, den);
        let whole = decimal_digits(h / 100);
        lemma_decimal_digits(h / 100);
        let text = x.text();
        if num < 0 {
            assert(text =~= seq!['-'] + whole + seq![
                '.',
                digit_char((h / 10 % 10) as int),
                digit_char((h % 10) as int),
            ]);
            assert forall|i: int| 0 <= i < text.len() - 3 implies is_digit(#[trigger] text[i]) || (i
                == 0 && text[i] == '-') by {
                if i > 0 {
                    assert(text[i] == whole[i - 1]);
                }
            }
            assert(text[text.len() - 4] == whole[whole.len() - 1]);
        } else {
            assert(text =~= whole + seq![
                '.',
                digit_char((h / 10 % 10) as int),
                digit_char((h % 10) as int),
            ]);
            assert forall|i: int| 0 <= i < text.len() - 3 implies is_digit(#[trigger] text[i]) by {
                assert(text[i] == whole[i]);
            }
            assert(text[text.len() - 4] == whole[whole.len() - 1]);
        }
    }
}

/// Rounding depends on the number alone: two fractions that agree after
/// cross multiplication round to the same whole number.
pub proof fn lemma_round_of_same_number(a: nat, d1: nat, b: nat, d2: nat)
    requires
        d1 > 0,
        d2 > 0,
        a * d2 == b * d1,
    ensures
        round_half_even(a, d1) == round_half_even(b, d2),
{
    let q1 = (a / d1) as int;
    let r1 = (a % d1) as int;
    let q2 = (b / d2) as int;
    let r2 = (b % d2) as int;
    let d = (d1 * d2) as int;
    lemma_fundamental_div_mod(a as int, d1 as int);
    lemma_fundamental_div_mod(b as int, d2 as int);
    assert(a * d2 == q1 * d + r1 * d2) by (nonlinear_arith)
        requires
            a == d1 * q1 + r1,
            d == d1 * d2,
    ;
    assert(b * d1 == q2 * d + r2 * d1) by (nonlinear_arith)
        requires
            b == d2 * q2 + r2,
            d == d1 * d2,
    ;
    assert(0 <= r1 * d2 < d) by (nonlinear_arith)
        requires
            0 <= r1 < d1,
            d2 > 0,
            d == d1 * d2,
    ;
    assert(0 <= r2 * d1 < d) by (nonlinear_arith)
        requires
            0 <= r2 < d2,
            d1 > 0,
            d == d1 * d2,
    ;
    lemma_fundamental_div_mod_converse((a * d2) as int, d, q1, r1 * d2);
    lemma_fundamental_div_mod_converse((b * d1) as int, d, q2, r2 * d1);
    assert(q1 == q2);
    assert(r1 * d2 == r2 * d1);
    assert((2 * r1 > d1) == (2 * r2 > d2)) by (nonlinear_arith)
        requires
            r1 * d2 == r2 * d1,
            d1 > 0,
            d2 > 0,
    ;
    assert((2 * r1 == d1) == (2 * r2 == d2)) by (nonlinear_arith)
        requires
            r1 * d2 == r2 * d1,
            d1 > 0,
            d2 > 0,
    ;
}

/// The text depends on the number alone, not on the terms in which its
/// fraction happens to be written.
pub proof fn lemma_text_of_same_number(x: Extended, y: Extended)
    requires
        x.well_formed(),
        y.well_formed(),
        x.same_number(y),
    ensures
        x.text() == y.text(),
{
    if let Extended::Finite { num: n1, den: d1 } = x {
        if let Extended::Finite { num: n2, den: d2 } = y {
            assert((n1 < 0) == (n2 < 0)) by (nonlinear_arith)
                requires
                    n1 * d2 == n2 * d1,
                    d1 > 0,
                    d2 > 0,
            ;
            let m1 = if n1 < 0 { -n1 } else { n1 };
            let m2 = if n2 < 0 { -n2 } else { n2 };
            assert((100 * m1) * d2 == (100 * m2) * d1) by (nonlinear_arith)
                requires
                    n1 * d2 == n2 * d1,
                    m1 == (if n1 < 0 { -n1 } else { n1 }),
                    m2 == (if n2 < 0 { -n2 } else { n2 }),
                    (n1 < 0) == (n2 < 0),
            ;
            lemma_round_of_same_number((100 * m1) as nat, d1 as nat, (100 * m2) as nat, d2 as nat);
        }
    }
}

/// The one-character text of a decimal digit.
pub fn digit_str(d: u8) -> (s: &'static str)
    requires
        d < 10,
    ensures
        s@ == seq![digit_char(d as int)],
{
    proof {
        reveal_strlit("0");
        reveal_strlit("1");
        reveal_strlit("2");
        reveal_strlit("3");
        reveal_strlit("4");
        reveal_strlit("5");
        reveal_strlit("6");
        reveal_strlit("7");
        reveal_strlit("8");
        reveal_strlit("9");
    }
    let s = match d {
        0 => "0",
        1 => "1",
        2 => "2",
        3 => "3",
        4 => "4",
        5 => "5",
        6 => "6",
        7 => "7",
        8 => "8",
        _ => "9",
    };
    assert(s@ =~= seq![digit_char(d as int)]);
    s
}

/// Appends the decimal digits of `n` to `out`.
pub fn push_decimal(out: &mut String, n: u128)
    ensures
        final(out)@ == old(out)@ + decimal_digits(n as nat),
    decreases n,
{
    if n >= 10 {
        push_decimal(out, n / 10);
    }
    out.append(digit_str((n % 10) as u8));
    proof {
        assert(out@ =~= old(out)@ + decimal_digits(n as nat));
    }
}

/// Long division by one decimal place: the next digit of `r / den` and the
/// remainder that is left, computed without widening.
pub fn next_decimal_place(r: u128, den: u128) -> (place: (u8, u128))
    requires
        r < den,
    ensures
        place.0 < 10,
        place.1 < den,
        10 * r == place.0 * den + place.1,
{
    let mut digit: u8 = 0;
    let mut rest: u128 = 0;
    let mut i: u8 = 0;
    while i < 10
        invariant
            r < den,
            i <= 10,
            digit <= i,
            rest < den,
            i * r == digit * den + rest,
        decreases 10 - i,
    {
        let ghost d0 = digit as int;
        let ghost i0 = i as int;
        if r >= den - rest {
            rest = r - (den - rest);
            digit = digit + 1;
        } else {
            rest = rest + r;
        }
        i = i + 1;
        proof {
            assert((i0 + 1) * r == i0 * r + r) by (nonlinear_arith);
            assert((d0 + 1) * den == d0 * den + den) by (nonlinear_arith);
        }
    }
    proof {
        assert(digit < 10) by (nonlinear_arith)
            requires
                10 * r == digit * den + rest,
                r < den,
                0 <= rest,
        ;
    }
    (digit, rest)
}

/// A magnitude in hundredths, split into its whole part and its two decimal
/// digits.
pub struct Hundredths {
    pub whole: u128,
    pub tenths: u8,
    pub last: u8,
}

impl Hundredths {
    /// The count of hundredths that the three parts stand for.
    pub open spec fn total(self) -> nat {
        (100 * self.whole + 10 * self.tenths + self.last) as nat
    }
}

/// Rounds the fraction `mag / den` to the nearest hundredth, ties to even.
/// Works for every magnitude: no intermediate value exceeds `mag`.
pub fn round_to_hundredths(mag: u128, den: u128) -> (h: Hundredths)
    requires
        den > 0,
    ensures
        h.tenths < 10,
        h.last < 10,
        h.total() == round_half_even((100 * mag) as nat, den as nat),
{
    let whole: u128 = mag / den;
    let r: u128 = mag % den;
    let (tenths, r1) = next_decimal_place(r, den);
    let (last, r2) = next_decimal_place(r1, den);
    let ghost floor: int = 100 * whole + 10 * tenths + last;
    proof {
        assert(mag == whole * den + r) by (nonlinear_arith)
            requires
                whole == mag / den,
                r == mag % den,
                den > 0,
        ;
        assert(100 * mag == floor * den + r2) by (nonlinear_arith)
            requires
                mag == whole * den + r,
                10 * r == tenths * den + r1,
                10 * r1 == last * den + r2,
                floor == 100 * whole + 10 * tenths + last,
        ;
        lemma_fundamental_div_mod_converse(100 * mag, den as int, floor, r2 as int);
        assert(den >= 2 ==> 2 * whole <= mag) by (nonlinear_arith)
            requires
                mag == whole * den + r,
                whole >= 0,
                r >= 0,
        ;
    }
    let up: bool = r2 > den - r2 || (r2 == den - r2 && last % 2 == 1);
    if !up {
        Hundredths { whole, tenths, last }
    } else if last < 9 {
        Hundredths { whole, tenths, last: last + 1 }
    } else if tenths < 9 {
        Hundredths { whole, tenths: tenths + 1, last: 0 }
    } else {
        Hundredths { whole: whole + 1, tenths: 0, last: 0 }
    }
}

} // verus!
