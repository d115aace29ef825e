//! The weather report: what the service answered for one place, and the text
//! and tint it is shown in.

use crate::mood::{label_of, mood_label, mood_of};
use crate::palette::{display_color, paint, painted, tint_of, Tint};
use crate::reading::{Number, Reading};
use crate::tenths::one_decimal_of;
use colored::ColoredString;
use vstd::prelude::*;
use vstd::string::StringExecFns;

verus! {

/// One answer of the weather service. The fields are those of the answer;
/// only the first description is shown.
#[derive(Clone, Debug, PartialEq, Eq)]
pub struct WeatherReport {
    /// Short descriptions of the weather, the leading one first.
    pub descriptions: Vec<String>,
    /// Temperature in degrees Celsius.
    pub temperature: Reading,
    /// Relative humidity in percent.
    pub humidity: Reading,
    /// Pressure in hectopascal.
    pub pressure: Reading,
    /// Wind speed in metres per second.
    pub wind_speed: Reading,
    /// The name of the place as the service gives it.
    pub location_name: String,
}

/// A weather report as plain values.
pub struct ReportView {
    pub descriptions: Seq<Seq<char>>,
    pub temperature: Number,
    pub humidity: Number,
    pub pressure: Number,
    pub wind_speed: Number,
    pub location_name: Seq<char>,
}

impl View for WeatherReport {
    type V = ReportView;

    open spec fn view(&self) -> ReportView {
        ReportView {
            descriptions: Seq::new(
                self.descriptions@.len(),
                |i: int| self.descriptions@[i]@,
            ),
            temperature: self.temperature@,
            humidity: self.humidity@,
            pressure: self.pressure@,
            wind_speed: self.wind_speed@,
            location_name: self.location_name@,
        }
    }
}

/// Why a report cannot be shown.
#[derive(Clone, Copy, Debug, PartialEq, Eq, Structural)]
pub enum ReportError {
    /// The answer holds no description of the weather.
    EmptyWeatherData,
}

/// The wording of an error.
pub open spec fn message_of(error: ReportError) -> Seq<char> {
    match error {
        ReportError::EmptyWeatherData => "empty weather data"@,
    }
}

impl ReportError {
    /// The error in words.
    pub fn message(&self) -> (text: &'static str)
        ensures
            text@ == message_of(*self),
    {
        match self {
            ReportError::EmptyWeatherData => "empty weather data",
        }
    }
}

/// A text and the tint it is to be printed in.
#[derive(Clone, Debug, PartialEq, Eq)]
pub struct Styled {
    pub text: String,
    pub tint: Tint,
}

/// A text and its tint as plain values.
pub struct StyledView {
    pub text: Seq<char>,
    pub tint: Tint,
}

impl View for Styled {
    type V = StyledView;

    open spec fn view(&self) -> StyledView {
        StyledView { text: self.text@, tint: self.tint }
    }
}

impl Styled {
    /// The text in its tint, as the `colored` crate prints it.
    pub fn render(&self) -> (shown: ColoredString)
        ensures
            shown == painted(self@.text, self@.tint),
    {
        paint(self.text.as_str(), self.tint)
    }
}

/// The lines of a report: the place, the leading description and the mood of
/// the temperature, then temperature, humidity, pressure and wind speed, each
/// on a line of its own, with one digit after the point and its unit.
pub open spec fn report_text(report: ReportView) -> Seq<char>
    recommends
        report.descriptions.len() > 0,
{
    "Weather in "@ + report.location_name + ": "@ + report.descriptions[0] + " "@ + label_of(
        mood_of(report.temperature),
    ) + "\n        > Temperature: "@ + one_decimal_of(report.temperature)
        + "°C\n        > Humidity: "@ + one_decimal_of(report.humidity)
        + "%\n        > Pressure: "@ + one_decimal_of(report.pressure)
        + " hPa\n        > Wind Speed: "@ + one_decimal_of(report.wind_speed) + " m/s"@
}

/// A report as it is shown: its lines, in the tint of its leading
/// description.
pub open spec fn display_of(report: ReportView) -> StyledView
    recommends
        report.descriptions.len() > 0,
{
    StyledView { text: report_text(report), tint: tint_of(report.descriptions[0]) }
}

/// The lines of the report. A report without a description has none.
pub fn weather_text(report: &WeatherReport) -> (lines: Result<String, ReportError>)
    ensures
        report@.descriptions.len() == 0 ==> lines == Err::<String, ReportError>(
            ReportError::EmptyWeatherData,
        ),
        report@.descriptions.len() > 0 ==> lines is Ok && lines->Ok_0@ == report_text(report@),
{
    if report.descriptions.len() == 0 {
        return Err(ReportError::EmptyWeatherData);
    }
    let mut text: String = String::from_str("Weather in ");
    text.append(report.location_name.as_str());
    text.append(": ");
    text.append(report.descriptions[0].as_str());
    text.append(" ");
    text.append(mood_label(report.temperature));
    text.append("\n        > Temperature: ");
    text.append(report.temperature.one_decimal().as_str());
    text.append("°C\n        > Humidity: ");
    text.append(report.humidity.one_decimal().as_str());
    text.append("%\n        > Pressure: ");
    text.append(report.pressure.one_decimal().as_str());
    text.append(" hPa\n        > Wind Speed: ");
    text.append(report.wind_speed.one_decimal().as_str());
    text.append(" m/s");
    assert(report@.descriptions[0] == report.descriptions@[0]@);
    assert(text@ =~= report_text(report@));
    Ok(text)
}

/// The report as it is shown: its lines and the tint of its leading
/// description. A report without a description cannot be shown.
pub fn display_weather_info(report: &WeatherReport) -> (shown: Result<Styled, ReportError>)
    ensures
        report@.descriptions.len() == 0 ==> shown is Err && shown->Err_0
            == ReportError::EmptyWeatherData,
        report@.descriptions.len() > 0 ==> shown is Ok && shown->Ok_0@ == display_of(report@),
{
    match weather_text(report) {
        Err(error) => Err(error),
        Ok(text) => {
            let tint: Tint = display_color(report.descriptions[0].as_str());
            assert(report@.descriptions[0] == report.descriptions@[0]@);
            Ok(Styled { text, tint })
        },
    }
}

} // verus!
