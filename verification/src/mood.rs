//! The mood of a temperature: a coarse label shown beside the description.

use crate::reading::{
    lemma_number_by_magnitude, lemma_units_increase, lemma_whole_units, magnitude_units,
    number_of, unit_exponent, Number, Reading, INFINITY_BITS, SIGN_SPAN,
};
use vstd::arithmetic::power2::{lemma2_to64_rest, lemma_pow2_pos, pow2};
use vstd::prelude::*;

verus! {

/// The bits of 10: exponent field 1026, fraction a quarter.
pub const TEN_BITS: u64 = 0x4024_0000_0000_0000;

/// The bits of 20: exponent field 1027, fraction a quarter.
pub const TWENTY_BITS: u64 = 0x4034_0000_0000_0000;

/// The bits of 30: exponent field 1027, fraction seven eighths.
pub const THIRTY_BITS: u64 = 0x403e_0000_0000_0000;

/// The five moods, coldest first.
#[derive(Clone, Copy, Debug, PartialEq, Eq, Structural)]
pub enum Mood {
    Freeze,
    Cloudy,
    MostlyCloudy,
    PartiallyCloudy,
    Sunny,
}

/// The mood of a temperature in degrees Celsius. The ranges are closed below
/// and open above; what is in none of the first four, be it 30 degrees or
/// more or no number at all, is sunny.
pub open spec fn mood_of(t: Number) -> Mood {
    if t.below(0) {
        Mood::Freeze
    } else if t.at_least(0) && t.below(10) {
        Mood::Cloudy
    } else if t.at_least(10) && t.below(20) {
        Mood::MostlyCloudy
    } else if t.at_least(20) && t.below(30) {
        Mood::PartiallyCloudy
    } else {
        Mood::Sunny
    }
}

/// The wording of a mood.
pub open spec fn label_of(mood: Mood) -> Seq<char> {
    match mood {
        Mood::Freeze => "Freeze"@,
        Mood::Cloudy => "Cloudy"@,
        Mood::MostlyCloudy => "Mostly Cloudy"@,
        Mood::PartiallyCloudy => "Partially Cloudy"@,
        Mood::Sunny => "Sunny"@,
    }
}

impl Mood {
    /// The label that stands for the mood in a report.
    pub fn label(&self) -> (text: &'static str)
        ensures
            text@ == label_of(*self),
    {
        match self {
            Mood::Freeze => "Freeze",
            Mood::Cloudy => "Cloudy",
            Mood::MostlyCloudy => "Mostly Cloudy",
            Mood::PartiallyCloudy => "Partially Cloudy",
            Mood::Sunny => "Sunny",
        }
    }
}

/// No two moods are worded alike.
pub proof fn lemma_labels_are_distinct(a: Mood, b: Mood)
    requires
        a != b,
    ensures
        label_of(a) != label_of(b),
{
    reveal_strlit("Freeze");
    reveal_strlit("Cloudy");
    reveal_strlit("Mostly Cloudy");
    reveal_strlit("Partially Cloudy");
    reveal_strlit("Sunny");
    assert("Freeze"@.len() == 6 && "Freeze"@[0] == 'F');
    assert("Cloudy"@.len() == 6 && "Cloudy"@[0] == 'C');
    assert("Mostly Cloudy"@.len() == 13);
    assert("Partially Cloudy"@.len() == 16);
    assert("Sunny"@.len() == 5);
}

/// The three thresholds count ten, twenty and thirty times two to the
/// 1074th units.
proof fn lemma_threshold_units()
    ensures
        magnitude_units(TEN_BITS) == 10 * pow2(unit_exponent()),
        magnitude_units(TWENTY_BITS) == 20 * pow2(unit_exponent()),
        magnitude_units(THIRTY_BITS) == 30 * pow2(unit_exponent()),
{
    lemma2_to64_rest();
    lemma_whole_units(TEN_BITS, 10, 49);
    lemma_whole_units(TWENTY_BITS, 20, 48);
    lemma_whole_units(THIRTY_BITS, 30, 48);
}

/// The bits of 0, 10, 20 and 30 stand for these whole numbers.
pub proof fn lemma_threshold_numbers()
    ensures
        number_of(0) == Number::whole(0),
        number_of(TEN_BITS) == Number::whole(10),
        number_of(TWENTY_BITS) == Number::whole(20),
        number_of(THIRTY_BITS) == Number::whole(30),
{
    lemma_threshold_units();
    lemma_number_by_magnitude(0);
    lemma_number_by_magnitude(TEN_BITS);
    lemma_number_by_magnitude(TWENTY_BITS);
    lemma_number_by_magnitude(THIRTY_BITS);
    assert(0 * pow2(unit_exponent()) == 0);
}

/// Every temperature has the mood of exactly one range: freezing below 0,
/// cloudy from 0 to below 10, mostly cloudy from 10 to below 20, partially
/// cloudy from 20 to below 30, sunny from 30 on and where the temperature is
/// no number.
pub proof fn lemma_mood_by_range(t: Number)
    ensures
        mood_of(t) == Mood::Freeze <==> t.below(0),
        mood_of(t) == Mood::Cloudy <==> t.at_least(0) && t.below(10),
        mood_of(t) == Mood::MostlyCloudy <==> t.at_least(10) && t.below(20),
        mood_of(t) == Mood::PartiallyCloudy <==> t.at_least(20) && t.below(30),
        mood_of(t) == Mood::Sunny <==> t.at_least(30) || t is NotANumber,
{
    lemma_pow2_pos(unit_exponent());
}

/// The mood of a temperature.
pub fn mood(temperature: Reading) -> (m: Mood)
    ensures
        m == mood_of(temperature@),
{
    let bits: u64 = temperature.to_bits();
    let negative: bool = bits >= SIGN_SPAN;
    let magnitude: u64 = bits % SIGN_SPAN;
    proof {
        lemma_number_by_magnitude(bits);
        lemma_threshold_units();
        lemma_pow2_pos(unit_exponent());
        if magnitude < INFINITY_BITS {
            if magnitude < TEN_BITS {
                lemma_units_increase(magnitude, TEN_BITS);
            }
            if magnitude > TEN_BITS {
                lemma_units_increase(TEN_BITS, magnitude);
            }
            if magnitude < TWENTY_BITS {
                lemma_units_increase(magnitude, TWENTY_BITS);
            }
            if magnitude > TWENTY_BITS {
                lemma_units_increase(TWENTY_BITS, magnitude);
            }
            if magnitude < THIRTY_BITS {
                lemma_units_increase(magnitude, THIRTY_BITS);
            }
            if magnitude > THIRTY_BITS {
                lemma_units_increase(THIRTY_BITS, magnitude);
            }
            if magnitude > 0 {
                lemma_units_increase(0, magnitude);
            }
        }
    }
    if magnitude > INFINITY_BITS {
        Mood::Sunny
    } else if negative {
        if magnitude == 0 {
            Mood::Cloudy
        } else {
            Mood::Freeze
        }
    } else if magnitude < TEN_BITS {
        Mood::Cloudy
    } else if magnitude < TWENTY_BITS {
        Mood::MostlyCloudy
    } else if magnitude < THIRTY_BITS {
        Mood::PartiallyCloudy
    } else {
        Mood::Sunny
    }
}

/// The label of the mood of a temperature.
pub fn mood_label(temperature: Reading) -> (text: &'static str)
    ensures
        text@ == label_of(mood_of(temperature@)),
{
    mood(temperature).label()
}

} // verus!
