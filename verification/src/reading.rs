//! Measurements. A reading is a binary64 number of IEEE 754, carried as its
//! 64 bits; what the bits stand for is a `Number`, and every rule on a
//! reading is stated over that number.

use vstd::arithmetic::mul::lemma_mul_is_associative;
use vstd::arithmetic::power2::{
    lemma_pow2_adds, lemma_pow2_pos, lemma_pow2_strictly_increases, lemma_pow2_unfold, pow2,
};
use vstd::prelude::*;

verus! {

/// Lowest value of the bits with the sign set: two to the 63rd.
pub const SIGN_SPAN: u64 = 0x8000_0000_0000_0000;

/// Number of values of the fraction field: two to the 52nd.
pub const FRACTION_SPAN: u64 = 0x10_0000_0000_0000;

/// The bits of positive infinity: exponent field full, fraction zero.
pub const INFINITY_BITS: u64 = 0x7ff0_0000_0000_0000;

/// The exponent of the unit in which finite magnitudes are counted: a finite
/// number is a whole count of units of two to the minus 1074th, the smallest
/// positive binary64.
pub open spec fn unit_exponent() -> nat {
    1074
}

/// What the bits of a binary64 stand for.
pub enum Number {
    /// No number at all: it is neither below nor at least anything.
    NotANumber,
    /// Beyond every finite number, on one side.
    Infinite { negative: bool },
    /// `units` units of two to the minus 1074th, with a sign. Zero has a
    /// sign too.
    Finite { negative: bool, units: nat },
}

impl Number {
    /// The count of units with its sign, for a finite number.
    pub open spec fn signed_units(self) -> int {
        match self {
            Number::Finite { negative, units } => if negative {
                -(units as int)
            } else {
                units as int
            },
            _ => 0,
        }
    }

    /// The number is smaller than the whole number `k`.
    pub open spec fn below(self, k: int) -> bool {
        match self {
            Number::NotANumber => false,
            Number::Infinite { negative } => negative,
            Number::Finite { .. } => self.signed_units() < k * pow2(unit_exponent()),
        }
    }

    /// The number is the whole number `k` or greater.
    pub open spec fn at_least(self, k: int) -> bool {
        match self {
            Number::NotANumber => false,
            Number::Infinite { negative } => !negative,
            Number::Finite { .. } => self.signed_units() >= k * pow2(unit_exponent()),
        }
    }

    /// The whole number `k` as a number.
    pub open spec fn whole(k: int) -> Number {
        if k < 0 {
            Number::Finite { negative: true, units: ((-k) * pow2(unit_exponent())) as nat }
        } else {
            Number::Finite { negative: false, units: (k * pow2(unit_exponent())) as nat }
        }
    }
}

/// Whole numbers compare as numbers the way they compare as integers. So a
/// whole number is at the lower end of the range that begins with it: it is
/// at least itself and not below itself.
pub proof fn lemma_whole_compares(j: int, k: int)
    ensures
        Number::whole(j).below(k) <==> j < k,
        Number::whole(j).at_least(k) <==> j >= k,
{
    let p = pow2(unit_exponent());
    lemma_pow2_pos(unit_exponent());
    assert((-j) * p == -(j * p)) by (nonlinear_arith);
    assert(j >= 0 ==> j * p >= 0) by (nonlinear_arith)
        requires
            p > 0,
    ;
    assert(j < 0 ==> (-j) * p >= 0) by (nonlinear_arith)
        requires
            p > 0,
    ;
    assert(Number::whole(j).signed_units() == j * p);
    assert((j * p < k * p) == (j < k)) by (nonlinear_arith)
        requires
            p > 0,
    ;
}

/// The sign bit is set.
pub open spec fn sign_of(bits: u64) -> bool {
    bits >= SIGN_SPAN
}

/// The bits without the sign.
pub open spec fn magnitude_of(bits: u64) -> u64 {
    (bits % SIGN_SPAN) as u64
}

/// The eleven bits of the exponent field.
pub open spec fn exponent_of(bits: u64) -> nat {
    ((bits / FRACTION_SPAN) % 2048) as nat
}

/// The 52 bits of the fraction field.
pub open spec fn fraction_of(bits: u64) -> nat {
    (bits % FRACTION_SPAN) as nat
}

/// The count of units that an exponent field below 2047 and a fraction field
/// stand for: the fraction alone where the exponent field is zero, else the
/// fraction with the hidden bit before it, doubled once for every step of the
/// exponent field above one.
pub open spec fn units_of(exponent: nat, fraction: nat) -> nat {
    if exponent == 0 {
        fraction
    } else {
        (FRACTION_SPAN as nat + fraction) * pow2((exponent - 1) as nat)
    }
}

/// The number that 64 bits stand for in binary64.
pub open spec fn number_of(bits: u64) -> Number {
    let exponent = exponent_of(bits);
    let fraction = fraction_of(bits);
    if exponent == 2047 {
        if fraction == 0 {
            Number::Infinite { negative: sign_of(bits) }
        } else {
            Number::NotANumber
        }
    } else {
        Number::Finite { negative: sign_of(bits), units: units_of(exponent, fraction) }
    }
}

/// The units counted by the magnitude bits of a finite number.
pub open spec fn magnitude_units(magnitude: u64) -> nat {
    units_of(exponent_of(magnitude), fraction_of(magnitude))
}

/// Among finite magnitudes, greater bits count more units.
pub proof fn lemma_units_increase(a: u64, b: u64)
    requires
        a < b < INFINITY_BITS,
    ensures
        magnitude_units(a) < magnitude_units(b),
{
    let ea = exponent_of(a);
    let eb = exponent_of(b);
    let fa = fraction_of(a);
    let fb = fraction_of(b);
    assert(ea <= eb);
    assert(eb < 2047);
    if ea == eb {
        if ea != 0 {
            let p = pow2((ea - 1) as nat);
            lemma_pow2_pos((ea - 1) as nat);
            assert((FRACTION_SPAN + fa) * p < (FRACTION_SPAN + fb) * p) by (nonlinear_arith)
                requires
                    fa < fb,
                    p > 0,
            ;
        }
    } else {
        let pb = pow2((eb - 1) as nat);
        lemma_pow2_pos((eb - 1) as nat);
        assert(FRACTION_SPAN * pb <= (FRACTION_SPAN + fb) * pb) by (nonlinear_arith)
            requires
                pb > 0,
                fb >= 0,
        ;
        if ea == 0 {
            assert(FRACTION_SPAN * 1 <= FRACTION_SPAN * pb) by (nonlinear_arith)
                requires
                    pb >= 1,
            ;
        } else {
            let pa = pow2((ea - 1) as nat);
            lemma_pow2_pos((ea - 1) as nat);
            lemma_pow2_unfold(ea);
            if ea < eb - 1 {
                lemma_pow2_strictly_increases(ea, (eb - 1) as nat);
            }
            assert(pow2(ea) <= pb);
            assert((FRACTION_SPAN + fa) * pa < FRACTION_SPAN * pb) by (nonlinear_arith)
                requires
                    fa < FRACTION_SPAN,
                    pa > 0,
                    2 * pa <= pb,
            ;
        }
    }
}

/// Reading the number off the bits without the sign: above the bits of
/// infinity there is no number, at them infinity, below them a finite number
/// whose units are those of these bits.
pub proof fn lemma_number_by_magnitude(bits: u64)
    ensures
        magnitude_of(bits) > INFINITY_BITS ==> number_of(bits) == Number::NotANumber,
        magnitude_of(bits) == INFINITY_BITS ==> number_of(bits) == (Number::Infinite {
            negative: sign_of(bits),
        }),
        magnitude_of(bits) < INFINITY_BITS ==> number_of(bits) == (Number::Finite {
            negative: sign_of(bits),
            units: magnitude_units(magnitude_of(bits)),
        }),
        magnitude_of(bits) == 0 ==> magnitude_units(magnitude_of(bits)) == 0,
{
    let magnitude = magnitude_of(bits);
    assert(exponent_of(bits) == exponent_of(magnitude));
    assert(fraction_of(bits) == fraction_of(magnitude));
    assert(magnitude == exponent_of(magnitude) * FRACTION_SPAN + fraction_of(magnitude));
}

/// The units of bits whose fraction, with the hidden bit before it, is `k`
/// times a power of two: `k` times two to the 1074th, where the exponent
/// field makes up for the rest.
pub proof fn lemma_whole_units(bits: u64, k: nat, shift: nat)
    requires
        bits < INFINITY_BITS,
        exponent_of(bits) >= 1,
        FRACTION_SPAN + fraction_of(bits) == k * pow2(shift),
        shift + exponent_of(bits) - 1 == unit_exponent(),
    ensures
        magnitude_units(bits) == k * pow2(unit_exponent()),
{
    let lift = (exponent_of(bits) - 1) as nat;
    lemma_pow2_adds(shift, lift);
    lemma_mul_is_associative(k as int, pow2(shift) as int, pow2(lift) as int);
}

/// A measurement: a binary64 number, held by its bits. Every value of the
/// bits is a reading.
#[derive(Clone, Copy, Debug, PartialEq, Eq, Structural)]
pub struct Reading {
    pub bits: u64,
}

impl View for Reading {
    type V = Number;

    open spec fn view(&self) -> Number {
        number_of(self.bits)
    }
}

impl Reading {
    /// The reading with the given bits.
    pub fn from_bits(bits: u64) -> (reading: Reading)
        ensures
            reading.bits == bits,
    {
        Reading { bits }
    }

    /// The bits of the reading.
    pub fn to_bits(&self) -> (bits: u64)
        ensures
            bits == self.bits,
    {
        self.bits
    }
}

} // verus!
