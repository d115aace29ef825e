//! Colours of the terminal output: which tint a weather description is shown
//! in, and the coloured text that the `colored` crate makes of a tint.

use crate::text::same_text;
use colored::{ColoredString, Colorize};
use vstd::prelude::*;

verus! {

/// The ways a line of output can be shown.
#[derive(Clone, Copy, Debug, PartialEq, Eq, Structural)]
pub enum Tint {
    BrightYellow,
    BrightBlue,
    Dimmed,
    BrightCyan,
    BrightGreen,
    Plain,
}

/// The tint of a report, chosen by its description. Only the exact words
/// count, letter for letter; every other description is shown plain.
pub open spec fn tint_of(description: Seq<char>) -> Tint {
    if description == "clear sky"@ {
        Tint::BrightYellow
    } else if description == "few clouds"@ || description == "scattered clouds"@ || description
        == "broken clouds"@ {
        Tint::BrightBlue
    } else if description == "overcase clouds"@ || description == "mist"@ || description
        == "haze"@ || description == "smoke"@ || description == "sand"@ || description == "dust"@
        || description == "fog"@ || description == "squalls"@ {
        Tint::Dimmed
    } else if description == "shower rain"@ || description == "rain"@ || description
        == "thunderstrom"@ || description == "snow"@ {
        Tint::BrightCyan
    } else {
        Tint::Plain
    }
}

/// The tint of a report with the given description.
pub fn display_color(description: &str) -> (tint: Tint)
    ensures
        tint == tint_of(description@),
{
    if same_text(description, "clear sky") {
        Tint::BrightYellow
    } else if same_text(description, "few clouds") || same_text(description, "scattered clouds")
        || same_text(description, "broken clouds") {
        Tint::BrightBlue
    } else if same_text(description, "overcase clouds") || same_text(description, "mist")
        || same_text(description, "haze") || same_text(description, "smoke") || same_text(
        description,
        "sand",
    ) || same_text(description, "dust") || same_text(description, "fog") || same_text(
        description,
        "squalls",
    ) {
        Tint::Dimmed
    } else if same_text(description, "shower rain") || same_text(description, "rain")
        || same_text(description, "thunderstrom") || same_text(description, "snow") {
        Tint::BrightCyan
    } else {
        Tint::Plain
    }
}

/// The description is one of the sixteen of the table.
pub open spec fn is_listed(description: Seq<char>) -> bool {
    ||| description == "clear sky"@
    ||| description == "few clouds"@
    ||| description == "scattered clouds"@
    ||| description == "broken clouds"@
    ||| description == "overcase clouds"@
    ||| description == "mist"@
    ||| description == "haze"@
    ||| description == "smoke"@
    ||| description == "sand"@
    ||| description == "dust"@
    ||| description == "fog"@
    ||| description == "squalls"@
    ||| description == "shower rain"@
    ||| description == "rain"@
    ||| description == "thunderstrom"@
    ||| description == "snow"@
}

/// Each word of the table has the tint of its own row: no row hides a word
/// of a later one.
pub proof fn lemma_tint_table()
    ensures
        tint_of("clear sky"@) == Tint::BrightYellow,
        tint_of("few clouds"@) == Tint::BrightBlue,
        tint_of("scattered clouds"@) == Tint::BrightBlue,
        tint_of("broken clouds"@) == Tint::BrightBlue,
        tint_of("overcase clouds"@) == Tint::Dimmed,
        tint_of("mist"@) == Tint::Dimmed,
        tint_of("haze"@) == Tint::Dimmed,
        tint_of("smoke"@) == Tint::Dimmed,
        tint_of("sand"@) == Tint::Dimmed,
        tint_of("dust"@) == Tint::Dimmed,
        tint_of("fog"@) == Tint::Dimmed,
        tint_of("squalls"@) == Tint::Dimmed,
        tint_of("shower rain"@) == Tint::BrightCyan,
        tint_of("rain"@) == Tint::BrightCyan,
        tint_of("thunderstrom"@) == Tint::BrightCyan,
        tint_of("snow"@) == Tint::BrightCyan,
{
    reveal_strlit("clear sky");
    reveal_strlit("few clouds");
    reveal_strlit("scattered clouds");
    reveal_strlit("broken clouds");
    reveal_strlit("overcase clouds");
    reveal_strlit("mist");
    reveal_strlit("haze");
    reveal_strlit("smoke");
    reveal_strlit("sand");
    reveal_strlit("dust");
    reveal_strlit("fog");
    reveal_strlit("squalls");
    reveal_strlit("shower rain");
    reveal_strlit("rain");
    reveal_strlit("thunderstrom");
    reveal_strlit("snow");
    assert("clear sky"@.len() == 9);
    assert("few clouds"@.len() == 10);
    assert("scattered clouds"@.len() == 16);
    assert("broken clouds"@.len() == 13);
    assert("overcase clouds"@.len() == 15);
    assert("smoke"@.len() == 5);
    assert("fog"@.len() == 3);
    assert("squalls"@.len() == 7);
    assert("shower rain"@.len() == 11);
    assert("thunderstrom"@.len() == 12);
    assert("mist"@.len() == 4 && "mist"@[0] == 'm');
    assert("haze"@.len() == 4 && "haze"@[0] == 'h');
    assert("sand"@.len() == 4 && "sand"@[0] == 's' && "sand"@[1] == 'a');
    assert("dust"@.len() == 4 && "dust"@[0] == 'd');
    assert("rain"@.len() == 4 && "rain"@[0] == 'r');
    assert("snow"@.len() == 4 && "snow"@[0] == 's' && "snow"@[1] == 'n');
}

/// A description is shown plain exactly where the table does not list it,
/// and never in bright green, which is kept for the questions.
pub proof fn lemma_unlisted_is_plain(description: Seq<char>)
    ensures
        tint_of(description) == Tint::Plain <==> !is_listed(description),
        tint_of(description) != Tint::BrightGreen,
{
}

/// `colored::ColoredString`: a text together with the colour and style it is
/// printed in. Nothing of its inside is known here.
#[verifier::external_type_specification]
#[verifier::external_body]
pub struct ExColoredString(ColoredString);

/// What `Colorize::bright_yellow` makes of a text.
pub uninterp spec fn bright_yellow_of(text: Seq<char>) -> ColoredString;

/// What `Colorize::bright_blue` makes of a text.
pub uninterp spec fn bright_blue_of(text: Seq<char>) -> ColoredString;

/// What `Colorize::dimmed` makes of a text.
pub uninterp spec fn dimmed_of(text: Seq<char>) -> ColoredString;

/// What `Colorize::bright_cyan` makes of a text.
pub uninterp spec fn bright_cyan_of(text: Seq<char>) -> ColoredString;

/// What `Colorize::bright_green` makes of a text.
pub uninterp spec fn bright_green_of(text: Seq<char>) -> ColoredString;

/// What `Colorize::normal` makes of a text.
pub uninterp spec fn normal_of(text: Seq<char>) -> ColoredString;

/// Calls `Colorize::bright_yellow` on the text. Trusted: the result depends
/// on the text alone. By the source it holds a copy of the text, bright
/// yellow as its foreground, no background and no style.
#[verifier::external_body]
fn bright_yellow(text: &str) -> (shown: ColoredString)
    ensures
        shown == bright_yellow_of(text@),
{
    text.bright_yellow()
}

/// Calls `Colorize::bright_blue` on the text. Trusted: the result depends
/// on the text alone. By the source it holds a copy of the text, bright blue
/// as its foreground, no background and no style.
#[verifier::external_body]
fn bright_blue(text: &str) -> (shown: ColoredString)
    ensures
        shown == bright_blue_of(text@),
{
    text.bright_blue()
}

/// Calls `Colorize::dimmed` on the text. Trusted: the result depends on the
/// text alone. By the source it holds a copy of the text, no colour, and the
/// style dimmed.
#[verifier::external_body]
fn dimmed(text: &str) -> (shown: ColoredString)
    ensures
        shown == dimmed_of(text@),
{
    text.dimmed()
}

/// Calls `Colorize::bright_cyan` on the text. Trusted: the result depends
/// on the text alone. By the source it holds a copy of the text, bright cyan
/// as its foreground, no background and no style.
#[verifier::external_body]
fn bright_cyan(text: &str) -> (shown: ColoredString)
    ensures
        shown == bright_cyan_of(text@),
{
    text.bright_cyan()
}

/// Calls `Colorize::bright_green` on the text. Trusted: the result depends
/// on the text alone. By the source it holds a copy of the text, bright
/// green as its foreground, no background and no style.
#[verifier::external_body]
fn bright_green(text: &str) -> (shown: ColoredString)
    ensures
        shown == bright_green_of(text@),
{
    text.bright_green()
}

/// Calls `Colorize::normal` on the text. Trusted: the result depends on the
/// text alone. By the source it holds a copy of the text, no colour and no
/// style.
#[verifier::external_body]
fn normal(text: &str) -> (shown: ColoredString)
    ensures
        shown == normal_of(text@),
{
    text.normal()
}

/// The coloured text that a tint makes of a text.
pub open spec fn painted(text: Seq<char>, tint: Tint) -> ColoredString {
    match tint {
        Tint::BrightYellow => bright_yellow_of(text),
        Tint::BrightBlue => bright_blue_of(text),
        Tint::Dimmed => dimmed_of(text),
        Tint::BrightCyan => bright_cyan_of(text),
        Tint::BrightGreen => bright_green_of(text),
        Tint::Plain => normal_of(text),
    }
}

/// The text in the tint, ready to be printed.
pub fn paint(text: &str, tint: Tint) -> (shown: ColoredString)
    ensures
        shown == painted(text@, tint),
{
    match tint {
        Tint::BrightYellow => bright_yellow(text),
        Tint::BrightBlue => bright_blue(text),
        Tint::Dimmed => dimmed(text),
        Tint::BrightCyan => bright_cyan(text),
        Tint::BrightGreen => bright_green(text),
        Tint::Plain => normal(text),
    }
}

} // verus!
