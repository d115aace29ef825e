//! A reading written with one digit after the point: the nearest tenth of
//! its exact value, a tie going to the even tenth.

use crate::decimal::{decimal, digit_char, digit_text, Numeral};
use crate::reading::{
    exponent_of, fraction_of, lemma_number_by_magnitude, unit_exponent, units_of, Number,
    Reading, FRACTION_SPAN, INFINITY_BITS, SIGN_SPAN,
};
use vstd::arithmetic::div_mod::lemma_fundamental_div_mod_converse;
use vstd::arithmetic::power2::{
    lemma2_to64, lemma2_to64_rest, lemma_pow2_adds, lemma_pow2_pos,
    lemma_pow2_strictly_increases, lemma_pow2_unfold, pow2,
};
use vstd::prelude::*;
use vstd::string::StringExecFns;

verus! {

/// The whole number nearest to `num / den`; of two equally near, the even
/// one.
pub open spec fn round_half_even(num: nat, den: nat) -> nat
    recommends
        den > 0,
{
    let whole = num / den;
    let rest = num % den;
    if 2 * rest < den || (2 * rest == den && whole % 2 == 0) {
        whole
    } else {
        whole + 1
    }
}

/// Rounding goes to a nearest whole number: the rounded value is no more
/// than a half away from the fraction. Where two are equally near, it is the
/// even one.
pub proof fn lemma_round_is_nearest(num: nat, den: nat)
    requires
        den > 0,
    ensures
        2 * (round_half_even(num, den) * den - num) <= den,
        2 * (num - round_half_even(num, den) * den) <= den,
        2 * (num % den) == den ==> round_half_even(num, den) % 2 == 0,
{
    let whole = num / den;
    let rest = num % den;
    assert(num == whole * den + rest && 0 <= rest < den) by (nonlinear_arith)
        requires
            den > 0,
            whole == num / den,
            rest == num % den,
    ;
    assert((whole + 1) * den == whole * den + den) by (nonlinear_arith);
}

/// The magnitude of `units` units of two to the minus 1074th, in tenths,
/// rounded to the nearest.
pub open spec fn tenths_of(units: nat) -> nat {
    round_half_even(10 * units, pow2(unit_exponent()))
}

/// The sign of a numeral: a minus or nothing.
pub open spec fn sign_text(negative: bool) -> Seq<char> {
    if negative {
        seq!['-']
    } else {
        Seq::empty()
    }
}

/// A number written with one digit after the point. A finite number is
/// rounded to the nearest tenth and keeps its sign, also where it rounds to
/// zero.
pub open spec fn one_decimal_of(x: Number) -> Seq<char> {
    match x {
        Number::NotANumber => "NaN"@,
        Number::Infinite { negative } => sign_text(negative) + "inf"@,
        Number::Finite { negative, units } => sign_text(negative) + decimal(tenths_of(units) / 10)
            + seq!['.', digit_char(tenths_of(units) % 10)],
    }
}

/// Rounding is the same after both parts of a fraction are multiplied by a
/// positive number.
proof fn lemma_round_scaling(num: nat, den: nat, by: nat)
    requires
        den > 0,
        by > 0,
    ensures
        round_half_even(num * by, den * by) == round_half_even(num, den),
{
    let whole = num / den;
    let rest = num % den;
    assert(num == whole * den + rest) by (nonlinear_arith)
        requires
            den > 0,
            whole == num / den,
            rest == num % den,
    ;
    assert(num * by == whole * (den * by) + rest * by) by (nonlinear_arith)
        requires
            num == whole * den + rest,
    ;
    assert(0 <= rest * by < den * by) by (nonlinear_arith)
        requires
            0 <= rest < den,
            by > 0,
    ;
    lemma_fundamental_div_mod_converse(
        (num * by) as int,
        (den * by) as int,
        whole as int,
        (rest * by) as int,
    );
    assert((2 * (rest * by) < den * by) == (2 * rest < den)) by (nonlinear_arith)
        requires
            by > 0,
    ;
    assert((2 * (rest * by) == den * by) == (2 * rest == den)) by (nonlinear_arith)
        requires
            by > 0,
    ;
}

/// A whole number of ones has ten times as many tenths.
proof fn lemma_tenths_of_whole(ones: nat)
    ensures
        tenths_of(ones * pow2(unit_exponent())) == 10 * ones,
{
    let den = pow2(unit_exponent());
    lemma_pow2_pos(unit_exponent());
    assert(10 * (ones * den) == (10 * ones) * den + 0) by (nonlinear_arith);
    lemma_fundamental_div_mod_converse(
        (10 * (ones * den)) as int,
        den as int,
        (10 * ones) as int,
        0,
    );
}

/// A whole number is written as its numeral, a point and a zero, with a
/// minus before it where it is below zero.
pub proof fn lemma_one_decimal_of_whole(k: int)
    ensures
        k >= 0 ==> one_decimal_of(Number::whole(k)) == decimal(k as nat) + seq!['.', '0'],
        k < 0 ==> one_decimal_of(Number::whole(k)) == seq!['-'] + decimal((-k) as nat) + seq![
            '.',
            '0',
        ],
{
    let size: nat = if k < 0 {
        (-k) as nat
    } else {
        k as nat
    };
    lemma_tenths_of_whole(size);
    lemma_pow2_pos(unit_exponent());
    assert(size * pow2(unit_exponent()) >= 0) by (nonlinear_arith);
    assert(Seq::<char>::empty() + decimal(size) =~= decimal(size));
}

/// What is less than half of the divisor rounds to zero.
proof fn lemma_round_small(num: nat, den: nat)
    requires
        2 * num < den,
    ensures
        round_half_even(num, den) == 0,
{
    lemma_fundamental_div_mod_converse(num as int, den as int, 0, num as int);
}

/// Two to the power `e`, which is below 64.
fn two_to(e: u64) -> (power: u64)
    requires
        e < 64,
    ensures
        power == pow2(e as nat),
{
    let mut power: u64 = 1;
    let mut i: u64 = 0;
    proof {
        lemma2_to64();
    }
    while i < e
        invariant
            i <= e < 64,
            power == pow2(i as nat),
        decreases e - i,
    {
        proof {
            lemma_pow2_unfold((i + 1) as nat);
            lemma2_to64_rest();
            if i + 1 < 63 {
                lemma_pow2_strictly_increases((i + 1) as nat, 63);
            }
        }
        power = 2 * power;
        i = i + 1;
    }
    power
}

/// `num / pow2(shift)` rounded to the nearest whole number, a tie to the
/// even one, for a numerator below two to the 57th.
fn round_shifted(num: u64, shift: u64) -> (rounded: u64)
    requires
        num < 0x200_0000_0000_0000,
    ensures
        rounded == round_half_even(num as nat, pow2(shift as nat)),
{
    if shift >= 58 {
        proof {
            lemma2_to64_rest();
            if shift > 58 {
                lemma_pow2_strictly_increases(58, shift as nat);
            }
            lemma_round_small(num as nat, pow2(shift as nat));
        }
        0
    } else {
        let span: u64 = two_to(shift);
        proof {
            lemma2_to64_rest();
            if shift < 57 {
                lemma_pow2_strictly_increases(shift as nat, 57);
            }
            lemma_pow2_pos(shift as nat);
        }
        let whole: u64 = num / span;
        let rest: u64 = num % span;
        if 2 * rest < span || (2 * rest == span && whole % 2 == 0) {
            whole
        } else {
            whole + 1
        }
    }
}

impl Reading {
    /// The reading written with one digit after the point.
    pub fn one_decimal(&self) -> (text: String)
        ensures
            text@ == one_decimal_of(self@),
    {
        let bits: u64 = self.bits;
        let negative: bool = bits >= SIGN_SPAN;
        let magnitude: u64 = bits % SIGN_SPAN;
        proof {
            lemma_number_by_magnitude(bits);
            reveal_strlit("-");
            reveal_strlit("inf");
            reveal_strlit(".");
            reveal_strlit(".0");
        }
        if magnitude > INFINITY_BITS {
            return String::from_str("NaN");
        }
        let mut text: String = String::new();
        if negative {
            text.append("-");
        }
        assert(text@ =~= sign_text(negative));
        if magnitude == INFINITY_BITS {
            text.append("inf");
            return text;
        }
        let exponent: u64 = magnitude / FRACTION_SPAN;
        let fraction: u64 = magnitude % FRACTION_SPAN;
        let significand: u64 = if exponent == 0 {
            fraction
        } else {
            FRACTION_SPAN + fraction
        };
        let scale: u64 = if exponent == 0 {
            1
        } else {
            exponent
        };
        let ghost units: nat = significand as nat * pow2((scale - 1) as nat);
        proof {
            lemma2_to64();
            assert(exponent_of(magnitude) == exponent);
            assert(fraction_of(magnitude) == fraction);
            if exponent == 0 {
                let one = pow2((scale - 1) as nat);
                assert(one == 1);
                assert(units == fraction) by (nonlinear_arith)
                    requires
                        units == significand as nat * one,
                        one == 1,
                        significand == fraction,
                ;
            } else {
                assert(units == units_of(exponent as nat, fraction as nat));
            }
            assert(self@ == Number::Finite { negative, units });
        }
        if scale >= 1075 {
            let mut ones: Numeral = Numeral::from_u64(significand);
            let mut doubled: u64 = 0;
            let doublings: u64 = scale - 1075;
            while doubled < doublings
                invariant
                    doubled <= doublings,
                    ones.wf(),
                    ones@ == significand as nat * pow2(doubled as nat),
                decreases doublings - doubled,
            {
                proof {
                    lemma_pow2_unfold((doubled + 1) as nat);
                    let power = pow2(doubled as nat);
                    assert(2 * (significand as nat * power) == significand as nat * (2 * power))
                        by (nonlinear_arith);
                }
                ones.double();
                doubled = doubled + 1;
            }
            text.append(ones.text().as_str());
            text.append(".0");
            proof {
                let whole = ones@;
                let lift = pow2(doublings as nat);
                let den = pow2(unit_exponent());
                lemma_pow2_adds(doublings as nat, unit_exponent());
                assert(units == whole * den) by (nonlinear_arith)
                    requires
                        units == significand as nat * (lift * den),
                        whole == significand as nat * lift,
                ;
                lemma_tenths_of_whole(whole);
                assert(text@ =~= one_decimal_of(self@));
            }
            text
        } else {
            let shift: u64 = 1075 - scale;
            let scaled: u64 = 10 * significand;
            let tenths: u64 = round_shifted(scaled, shift);
            proof {
                let lift = pow2((scale - 1) as nat);
                lemma_pow2_pos((scale - 1) as nat);
                lemma_pow2_pos(shift as nat);
                lemma_pow2_adds(shift as nat, (scale - 1) as nat);
                assert(10 * units == scaled as nat * lift) by (nonlinear_arith)
                    requires
                        units == significand as nat * lift,
                        scaled == 10 * significand,
                ;
                lemma_round_scaling(scaled as nat, pow2(shift as nat), lift);
                assert(tenths == tenths_of(units));
            }
            text.append(Numeral::from_u64(tenths / 10).text().as_str());
            text.append(".");
            text.append(digit_text((tenths % 10) as u8));
            proof {
                assert(text@ =~= one_decimal_of(self@));
            }
            text
        }
    }
}

} // verus!
