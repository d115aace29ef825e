//! Decimal numerals: what the numeral of a natural number is, and numbers
//! held by their digits, as long as the greatest binary64 needs them.

use vstd::prelude::*;
use vstd::string::StringExecFns;

verus! {

/// The character of a decimal digit.
pub open spec fn digit_char(d: nat) -> char {
    if d == 0 {
        '0'
    } else if d == 1 {
        '1'
    } else if d == 2 {
        '2'
    } else if d == 3 {
        '3'
    } else if d == 4 {
        '4'
    } else if d == 5 {
        '5'
    } else if d == 6 {
        '6'
    } else if d == 7 {
        '7'
    } else if d == 8 {
        '8'
    } else {
        '9'
    }
}

/// The decimal numeral of a natural number: its digits, the highest first,
/// with no zero before them; a single zero for zero.
pub open spec fn decimal(n: nat) -> Seq<char>
    decreases n,
{
    if n < 10 {
        seq![digit_char(n)]
    } else {
        decimal(n / 10).push(digit_char(n % 10))
    }
}

/// Ten to the power `k`.
pub open spec fn ten_to(k: nat) -> nat
    decreases k,
{
    if k == 0 {
        1
    } else {
        10 * ten_to((k - 1) as nat)
    }
}

/// The number written by a string of digits that begins with the lowest.
pub open spec fn digits_value(digits: Seq<u8>) -> nat
    decreases digits.len(),
{
    if digits.len() == 0 {
        0
    } else {
        digits_value(digits.drop_last()) + digits.last() as nat * ten_to(
            (digits.len() - 1) as nat,
        )
    }
}

/// A string of digits, the lowest first, as a numeral is written: at least
/// one digit, each below ten, and the highest not zero unless it is the only
/// one.
pub open spec fn is_numeral(digits: Seq<u8>) -> bool {
    &&& digits.len() >= 1
    &&& forall|i: int| 0 <= i < digits.len() ==> #[trigger] digits[i] < 10
    &&& digits.len() > 1 ==> digits.last() != 0
}

/// The characters of a string of digits, the highest first.
pub open spec fn numeral_text(digits: Seq<u8>) -> Seq<char> {
    Seq::new(digits.len(), |j: int| digit_char(digits[digits.len() - 1 - j] as nat))
}

proof fn lemma_ten_to_positive(k: nat)
    ensures
        ten_to(k) >= 1,
    decreases k,
{
    if k > 0 {
        lemma_ten_to_positive((k - 1) as nat);
    }
}

/// The value of a string of digits is its lowest digit and ten times the
/// value of the rest.
proof fn lemma_value_by_lowest(digits: Seq<u8>)
    requires
        digits.len() >= 1,
    ensures
        digits_value(digits) == digits[0] as nat + 10 * digits_value(digits.drop_first()),
    decreases digits.len(),
{
    if digits.len() == 1 {
        assert(digits.drop_last().len() == 0);
        assert(digits.drop_first().len() == 0);
        assert(digits_value(digits.drop_last()) == 0);
        assert(digits_value(digits.drop_first()) == 0);
        assert(ten_to(0) == 1);
    } else {
        let front = digits.drop_last();
        let rest = digits.drop_first();
        lemma_value_by_lowest(front);
        assert(front.drop_first() =~= rest.drop_last());
        assert(front[0] == digits[0]);
        assert(rest.last() == digits.last());
        let k = (digits.len() - 1) as nat;
        assert(ten_to(k) == 10 * ten_to((k - 1) as nat));
        let high = digits.last() as nat;
        let low_power = ten_to((k - 1) as nat);
        assert(high * (10 * low_power) == 10 * (high * low_power)) by (nonlinear_arith);
        assert(digits_value(rest) == digits_value(rest.drop_last()) + high * low_power);
    }
}

/// A numeral of more than one digit writes a number that is not zero.
proof fn lemma_numeral_positive(digits: Seq<u8>)
    requires
        digits.len() >= 1,
        digits.last() != 0,
    ensures
        digits_value(digits) >= 1,
{
    let k = (digits.len() - 1) as nat;
    lemma_ten_to_positive(k);
    let high = digits.last() as nat;
    let power = ten_to(k);
    assert(high * power >= 1) by (nonlinear_arith)
        requires
            high >= 1,
            power >= 1,
    ;
}

/// The digits of a numeral, the highest first, are the decimal numeral of
/// the number it writes.
proof fn lemma_numeral_is_decimal(digits: Seq<u8>)
    requires
        is_numeral(digits),
    ensures
        numeral_text(digits) == decimal(digits_value(digits)),
    decreases digits.len(),
{
    lemma_value_by_lowest(digits);
    let rest = digits.drop_first();
    if digits.len() == 1 {
        assert(rest.len() == 0);
        assert(digits_value(rest) == 0);
        assert(numeral_text(digits) =~= seq![digit_char(digits[0] as nat)]);
    } else {
        assert(is_numeral(rest));
        lemma_numeral_positive(rest);
        lemma_numeral_is_decimal(rest);
        let n = digits_value(digits);
        assert(n >= 10);
        assert(n / 10 == digits_value(rest));
        assert(n % 10 == digits[0] as nat);
        assert(numeral_text(digits) =~= numeral_text(rest).push(digit_char(digits[0] as nat)));
    }
}

/// The digit as a text of one character.
pub fn digit_text(d: u8) -> (text: &'static str)
    requires
        d < 10,
    ensures
        text@ == seq![digit_char(d as nat)],
{
    proof {
        reveal_strlit("0");
        reveal_strlit("1");
        reveal_strlit("2");
        reveal_strlit("3");
        reveal_strlit("4");
        reveal_strlit("5");
        reveal_strlit("6");
        reveal_strlit("7");
        reveal_strlit("8");
        reveal_strlit("9");
    }
    let text: &'static str = match d {
        0 => "0",
        1 => "1",
        2 => "2",
        3 => "3",
        4 => "4",
        5 => "5",
        6 => "6",
        7 => "7",
        8 => "8",
        _ => "9",
    };
    assert(text@ =~= seq![digit_char(d as nat)]);
    text
}

/// A natural number of any size, held by its decimal digits, the lowest
/// first.
#[derive(Clone, Debug, PartialEq, Eq)]
pub struct Numeral {
    digits: Vec<u8>,
}

impl View for Numeral {
    type V = nat;

    /// The number that the numeral writes.
    closed spec fn view(&self) -> nat {
        digits_value(self.digits@)
    }
}

impl Numeral {
    /// The digits are those of a numeral as it is written. Every numeral
    /// that this module hands out is well formed.
    pub closed spec fn wf(&self) -> bool {
        is_numeral(self.digits@)
    }

    /// The numeral of a number that fits 64 bits.
    pub fn from_u64(n: u64) -> (numeral: Numeral)
        ensures
            numeral.wf(),
            numeral@ == n,
    {
        let mut digits: Vec<u8> = Vec::new();
        let mut rest: u64 = n;
        assert(digits_value(digits@) == 0);
        assert(ten_to(0) == 1);
        while rest >= 10
            invariant
                digits_value(digits@) + rest * ten_to(digits@.len()) == n,
                forall|i: int| 0 <= i < digits@.len() ==> #[trigger] digits@[i] < 10,
                digits@.len() > 0 ==> rest >= 1,
            decreases rest,
        {
            let low: u8 = (rest % 10) as u8;
            let ghost before = digits@;
            let ghost power = ten_to(before.len());
            digits.push(low);
            proof {
                assert(digits@.drop_last() =~= before);
                assert(ten_to((before.len() + 1) as nat) == 10 * power);
                let high = (rest / 10) as nat;
                assert(rest * power == low * power + high * (10 * power)) by (nonlinear_arith)
                    requires
                        rest == low + 10 * high,
                ;
            }
            rest = rest / 10;
        }
        let ghost before = digits@;
        digits.push(rest as u8);
        proof {
            assert(digits@.drop_last() =~= before);
        }
        Numeral { digits }
    }

    /// Doubles the number.
    pub fn double(&mut self)
        requires
            old(self).wf(),
        ensures
            final(self).wf(),
            final(self)@ == 2 * old(self)@,
    {
        let ghost start = self.digits@;
        let n: usize = self.digits.len();
        let mut i: usize = 0;
        let mut carry: u8 = 0;
        proof {
            assert(start.subrange(0, 0).len() == 0);
        }
        while i < n
            invariant
                i <= n,
                n == start.len(),
                self.digits@.len() == n,
                carry <= 1,
                is_numeral(start),
                forall|j: int| 0 <= j < n ==> #[trigger] self.digits@[j] < 10,
                forall|j: int| i <= j < n ==> self.digits@[j] == start[j],
                digits_value(self.digits@.subrange(0, i as int)) + carry * ten_to(i as nat) == 2
                    * digits_value(start.subrange(0, i as int)),
                i == n && n > 1 && carry == 0 ==> self.digits@[n - 1] != 0,
            decreases n - i,
        {
            let ghost before = self.digits@;
            let sum: u8 = 2 * self.digits[i] + carry;
            let low: u8 = sum % 10;
            self.digits.set(i, low);
            proof {
                let now = self.digits@;
                let power = ten_to(i as nat);
                let old_digit = start[i as int] as nat;
                assert(now.subrange(0, i + 1).drop_last() =~= before.subrange(0, i as int));
                assert(now.subrange(0, i + 1).last() == low);
                assert(start.subrange(0, i + 1).drop_last() =~= start.subrange(0, i as int));
                assert(start.subrange(0, i + 1).last() == start[i as int]);
                assert(ten_to((i + 1) as nat) == 10 * power);
                let up = (sum / 10) as nat;
                assert(low * power + up * (10 * power) == carry * power + 2 * (old_digit
                    * power)) by (nonlinear_arith)
                    requires
                        low + 10 * up == 2 * old_digit + carry,
                ;
                if i + 1 == n && n > 1 && sum / 10 == 0 {
                    assert(start.last() != 0);
                    assert(low != 0);
                }
            }
            carry = sum / 10;
            i = i + 1;
        }
        proof {
            assert(self.digits@.subrange(0, n as int) =~= self.digits@);
            assert(start.subrange(0, n as int) =~= start);
        }
        if carry == 1 {
            let ghost before = self.digits@;
            self.digits.push(1);
            proof {
                assert(self.digits@.drop_last() =~= before);
            }
        }
    }

    /// The number in decimal.
    pub fn text(&self) -> (text: String)
        requires
            self.wf(),
        ensures
            text@ == decimal(self@),
    {
        let n: usize = self.digits.len();
        let mut text: String = String::new();
        let mut i: usize = n;
        while i > 0
            invariant
                i <= n,
                n == self.digits@.len(),
                is_numeral(self.digits@),
                text@ == numeral_text(self.digits@).subrange(0, n - i),
            decreases i,
        {
            i = i - 1;
            text.append(digit_text(self.digits[i]));
            proof {
                assert(text@ =~= numeral_text(self.digits@).subrange(0, n - i));
            }
        }
        proof {
            assert(numeral_text(self.digits@).subrange(0, n as int) =~= numeral_text(
                self.digits@,
            ));
            lemma_numeral_is_decimal(self.digits@);
        }
        text
    }
}

} // verus!
