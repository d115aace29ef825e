use colored::{Color, Colorize};
use weather_station::palette::Tint;
use weather_station::reading::Reading;
use weather_station::report::{
    display_weather_info, weather_text, ReportError, Styled, WeatherReport,
};

fn reading(x: f64) -> Reading {
    Reading::from_bits(x.to_bits())
}

fn report(
    name: &str,
    descriptions: &[&str],
    temperature: f64,
    humidity: f64,
    pressure: f64,
    wind_speed: f64,
) -> WeatherReport {
    WeatherReport {
        descriptions: descriptions.iter().map(|d| String::from(*d)).collect(),
        temperature: reading(temperature),
        humidity: reading(humidity),
        pressure: reading(pressure),
        wind_speed: reading(wind_speed),
        location_name: String::from(name),
    }
}

fn london() -> WeatherReport {
    report("London", &["clear sky"], 15.0, 60.0, 1012.0, 3.2)
}

#[test]
fn london_report_holds_every_part() {
    let shown: Styled = display_weather_info(&london()).unwrap();
    for part in [
        "Weather in London",
        "clear sky",
        "Mostly Cloudy",
        "15.0\u{b0}C",
        "60.0%",
        "1012.0 hPa",
        "3.2 m/s",
    ] {
        assert!(shown.text.contains(part), "no {:?} in {:?}", part, shown.text);
    }
}

#[test]
fn london_report_is_bright_yellow() {
    let shown: Styled = display_weather_info(&london()).unwrap();
    assert_eq!(shown.tint, Tint::BrightYellow);
    assert_eq!(shown.render().fgcolor, Some(Color::BrightYellow));
    assert_eq!(shown.render(), shown.text.as_str().bright_yellow());
}

#[test]
fn london_report_line_by_line() {
    let text: String = weather_text(&london()).unwrap();
    assert_eq!(
        text,
        "Weather in London: clear sky Mostly Cloudy\n        > Temperature: 15.0\u{b0}C\n        > Humidity: 60.0%\n        > Pressure: 1012.0 hPa\n        > Wind Speed: 3.2 m/s"
    );
}

#[test]
fn report_text_is_what_the_format_gives() {
    let cases = [
        ("Oslo", "snow", -3.44, 81.0, 998.25, 7.05),
        ("Cairo", "sand", 38.96, 12.5, 1009.0, 0.0),
        ("", "", 0.0, 0.0, 0.0, 0.0),
        ("Reykjav\u{ed}k", "shower rain", 9.99, 100.0, 1013.25, 12.349),
    ];
    for (name, description, t, h, p, w) in cases {
        let mood = if t < 0.0 {
            "Freeze"
        } else if t < 10.0 {
            "Cloudy"
        } else if t < 20.0 {
            "Mostly Cloudy"
        } else if t < 30.0 {
            "Partially Cloudy"
        } else {
            "Sunny"
        };
        let expected = format!(
            "Weather in {}: {} {}\n        > Temperature: {:.1}\u{b0}C\n        > Humidity: {:.1}%\n        > Pressure: {:.1} hPa\n        > Wind Speed: {:.1} m/s",
            name, description, mood, t, h, p, w
        );
        assert_eq!(weather_text(&report(name, &[description], t, h, p, w)).unwrap(), expected);
    }
}

#[test]
fn report_tint_goes_by_description_not_temperature() {
    let cold_and_clear = report("Troms\u{f8}", &["clear sky"], -20.0, 50.0, 1020.0, 1.0);
    assert_eq!(display_weather_info(&cold_and_clear).unwrap().tint, Tint::BrightYellow);
    let hot_and_wet = report("Manaus", &["rain"], 35.0, 95.0, 1005.0, 2.0);
    let shown: Styled = display_weather_info(&hot_and_wet).unwrap();
    assert_eq!(shown.tint, Tint::BrightCyan);
    assert!(shown.text.contains("Sunny"));
}

#[test]
fn report_shows_only_the_first_description() {
    let two = report("Lima", &["mist", "clear sky"], 18.0, 80.0, 1011.0, 4.0);
    let shown: Styled = display_weather_info(&two).unwrap();
    assert_eq!(shown.tint, Tint::Dimmed);
    assert!(shown.text.starts_with("Weather in Lima: mist Mostly Cloudy\n"));
    assert!(!shown.text.contains("clear sky"));
}

#[test]
fn report_with_an_unlisted_description_is_plain() {
    let other = report("Lagos", &["light rain"], 29.0, 70.0, 1010.0, 3.0);
    let shown: Styled = display_weather_info(&other).unwrap();
    assert_eq!(shown.tint, Tint::Plain);
    assert!(shown.render().is_plain());
}

#[test]
fn report_without_a_description_is_an_error() {
    let empty = report("Nowhere", &[], 15.0, 60.0, 1012.0, 3.2);
    assert_eq!(weather_text(&empty), Err(ReportError::EmptyWeatherData));
    assert_eq!(display_weather_info(&empty), Err(ReportError::EmptyWeatherData));
}

#[test]
fn report_error_in_words() {
    assert_eq!(ReportError::EmptyWeatherData.message(), "empty weather data");
}

#[test]
fn report_rounds_each_measurement_to_a_tenth() {
    let text: String =
        weather_text(&report("Quito", &["fog"], 13.96, 77.449, 1023.05, 0.25)).unwrap();
    assert!(text.contains("> Temperature: 14.0\u{b0}C\n"));
    assert!(text.contains("> Humidity: 77.4%\n"));
    assert!(text.contains("> Pressure: 1023.0 hPa\n") || text.contains("> Pressure: 1023.1 hPa\n"));
    assert_eq!(
        text.contains("> Pressure: 1023.1 hPa\n"),
        format!("{:.1}", 1023.05f64) == "1023.1"
    );
    assert!(text.ends_with("> Wind Speed: 0.2 m/s"));
}
