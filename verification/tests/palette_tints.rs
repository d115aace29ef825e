use colored::{Color, ColoredString, Colorize, Styles};
use weather_station::palette::{display_color, paint, Tint};
use weather_station::report::Styled;

#[test]
fn clear_sky_is_bright_yellow() {
    assert_eq!(display_color("clear sky"), Tint::BrightYellow);
}

#[test]
fn clouds_are_bright_blue() {
    assert_eq!(display_color("few clouds"), Tint::BrightBlue);
    assert_eq!(display_color("scattered clouds"), Tint::BrightBlue);
    assert_eq!(display_color("broken clouds"), Tint::BrightBlue);
}

#[test]
fn haze_and_its_like_are_dimmed() {
    assert_eq!(display_color("overcase clouds"), Tint::Dimmed);
    assert_eq!(display_color("mist"), Tint::Dimmed);
    assert_eq!(display_color("haze"), Tint::Dimmed);
    assert_eq!(display_color("smoke"), Tint::Dimmed);
    assert_eq!(display_color("sand"), Tint::Dimmed);
    assert_eq!(display_color("dust"), Tint::Dimmed);
    assert_eq!(display_color("fog"), Tint::Dimmed);
    assert_eq!(display_color("squalls"), Tint::Dimmed);
}

#[test]
fn rain_and_snow_are_bright_cyan() {
    assert_eq!(display_color("shower rain"), Tint::BrightCyan);
    assert_eq!(display_color("rain"), Tint::BrightCyan);
    assert_eq!(display_color("thunderstrom"), Tint::BrightCyan);
    assert_eq!(display_color("snow"), Tint::BrightCyan);
}

#[test]
fn other_descriptions_are_plain() {
    assert_eq!(display_color(""), Tint::Plain);
    assert_eq!(display_color("tornado"), Tint::Plain);
    assert_eq!(display_color("light rain"), Tint::Plain);
    assert_eq!(display_color("overcast clouds"), Tint::Plain);
    assert_eq!(display_color("thunderstorm"), Tint::Plain);
}

#[test]
fn descriptions_match_letter_for_letter() {
    assert_eq!(display_color("Clear Sky"), Tint::Plain);
    assert_eq!(display_color("clear sky "), Tint::Plain);
    assert_eq!(display_color(" clear sky"), Tint::Plain);
    assert_eq!(display_color("clear  sky"), Tint::Plain);
    assert_eq!(display_color("RAIN"), Tint::Plain);
    assert_eq!(display_color("rai"), Tint::Plain);
    assert_eq!(display_color("rains"), Tint::Plain);
    assert_eq!(display_color("fo\u{0261}"), Tint::Plain);
}

#[test]
fn paint_gives_what_colored_gives() {
    assert_eq!(paint("sun", Tint::BrightYellow), "sun".bright_yellow());
    assert_eq!(paint("sun", Tint::BrightBlue), "sun".bright_blue());
    assert_eq!(paint("sun", Tint::Dimmed), "sun".dimmed());
    assert_eq!(paint("sun", Tint::BrightCyan), "sun".bright_cyan());
    assert_eq!(paint("sun", Tint::BrightGreen), "sun".bright_green());
    assert_eq!(paint("sun", Tint::Plain), "sun".normal());
}

#[test]
fn paint_sets_the_foreground_of_the_bright_tints() {
    let yellow: ColoredString = paint("a text", Tint::BrightYellow);
    assert_eq!(yellow.input, "a text");
    assert_eq!(yellow.fgcolor, Some(Color::BrightYellow));
    assert_eq!(yellow.bgcolor, None);
    assert!(!yellow.style.contains(Styles::Dimmed));
    assert_eq!(paint("a text", Tint::BrightBlue).fgcolor, Some(Color::BrightBlue));
    assert_eq!(paint("a text", Tint::BrightCyan).fgcolor, Some(Color::BrightCyan));
    assert_eq!(paint("a text", Tint::BrightGreen).fgcolor, Some(Color::BrightGreen));
}

#[test]
fn paint_dims_without_a_colour() {
    let dim: ColoredString = paint("a text", Tint::Dimmed);
    assert_eq!(dim.input, "a text");
    assert_eq!(dim.fgcolor, None);
    assert_eq!(dim.bgcolor, None);
    assert!(dim.style.contains(Styles::Dimmed));
}

#[test]
fn paint_plain_is_plain() {
    let plain: ColoredString = paint("a text", Tint::Plain);
    assert_eq!(plain.input, "a text");
    assert!(plain.is_plain());
}

#[test]
fn paint_tells_the_tints_apart() {
    let tints = [
        Tint::BrightYellow,
        Tint::BrightBlue,
        Tint::Dimmed,
        Tint::BrightCyan,
        Tint::BrightGreen,
        Tint::Plain,
    ];
    for (i, a) in tints.iter().enumerate() {
        for (j, b) in tints.iter().enumerate() {
            assert_eq!(paint("x", *a) == paint("x", *b), i == j);
        }
    }
}

#[test]
fn styled_renders_its_text_in_its_tint() {
    let styled = Styled { text: String::from("Weather in Oslo"), tint: Tint::BrightCyan };
    assert_eq!(styled.render(), "Weather in Oslo".bright_cyan());
}
