//! Unit preferences and their display and API parameter strings.

use vstd::prelude::*;

use crate::text::str_eq;

verus! {

/// Temperature unit preference.
#[derive(Clone, Copy, Debug, PartialEq, Eq, Structural)]
pub enum TemperatureUnit {
    Fahrenheit,
    Celsius,
}

impl Default for TemperatureUnit {
    /// Fahrenheit, matching the default coordinate's country.
    fn default() -> (r: Self)
        ensures
            r == TemperatureUnit::Fahrenheit,
    {
        TemperatureUnit::Fahrenheit
    }
}

impl TemperatureUnit {
    /// Display string for the unit.
    pub fn as_str(self) -> (r: &'static str)
        ensures
            r@ == match self {
                TemperatureUnit::Fahrenheit => "Fahrenheit"@,
                TemperatureUnit::Celsius => "Celsius"@,
            },
    {
        match self {
            TemperatureUnit::Fahrenheit => "Fahrenheit",
            TemperatureUnit::Celsius => "Celsius",
        }
    }

    /// Degree symbol for the unit.
    pub fn symbol(&self) -> (r: &'static str)
        ensures
            r@ == match self {
                TemperatureUnit::Fahrenheit => "°F"@,
                TemperatureUnit::Celsius => "°C"@,
            },
    {
        match self {
            TemperatureUnit::Fahrenheit => "°F",
            TemperatureUnit::Celsius => "°C",
        }
    }

    /// Query parameter value the forecast API expects.
    pub fn api_param(&self) -> (r: &'static str)
        ensures
            r@ == match self {
                TemperatureUnit::Fahrenheit => "fahrenheit"@,
                TemperatureUnit::Celsius => "celsius"@,
            },
    {
        match self {
            TemperatureUnit::Fahrenheit => "fahrenheit",
            TemperatureUnit::Celsius => "celsius",
        }
    }
}

/// Tab options for the popup interface.
#[derive(Clone, Copy, Debug, PartialEq, Eq, Structural)]
pub enum PopupTab {
    AirQuality,
    Alerts,
    Hourly,
    Forecast,
    Settings,
}

impl Default for PopupTab {
    /// The air quality tab opens first.
    fn default() -> (r: Self)
        ensures
            r == PopupTab::AirQuality,
    {
        PopupTab::AirQuality
    }
}

/// Measurement system for non-temperature units.
#[derive(Clone, Copy, Debug, PartialEq, Eq, Structural)]
pub enum MeasurementSystem {
    Imperial,
    Metric,
}

impl Default for MeasurementSystem {
    /// Imperial, matching the default coordinate's country.
    fn default() -> (r: Self)
        ensures
            r == MeasurementSystem::Imperial,
    {
        MeasurementSystem::Imperial
    }
}

impl MeasurementSystem {
    /// Display string for the measurement system.
    pub fn as_str(self) -> (r: &'static str)
        ensures
            r@ == match self {
                MeasurementSystem::Imperial => "Imperial"@,
                MeasurementSystem::Metric => "Metric"@,
            },
    {
        match self {
            MeasurementSystem::Imperial => "Imperial",
            MeasurementSystem::Metric => "Metric",
        }
    }

    /// Wind speed unit label.
    pub fn wind_speed_unit(&self) -> (r: &'static str)
        ensures
            r@ == match self {
                MeasurementSystem::Imperial => "mph"@,
                MeasurementSystem::Metric => "km/h"@,
            },
    {
        match self {
            MeasurementSystem::Imperial => "mph",
            MeasurementSystem::Metric => "km/h",
        }
    }

    /// Visibility unit label.
    pub fn visibility_unit(&self) -> (r: &'static str)
        ensures
            r@ == match self {
                MeasurementSystem::Imperial => "mi"@,
                MeasurementSystem::Metric => "km"@,
            },
    {
        match self {
            MeasurementSystem::Imperial => "mi",
            MeasurementSystem::Metric => "km",
        }
    }

    /// Query parameter value the forecast API expects for wind speed.
    pub fn wind_speed_api_param(&self) -> (r: &'static str)
        ensures
            r@ == match self {
                MeasurementSystem::Imperial => "mph"@,
                MeasurementSystem::Metric => "kmh"@,
            },
    {
        match self {
            MeasurementSystem::Imperial => "mph",
            MeasurementSystem::Metric => "kmh",
        }
    }
}

/// Alerts are on unless the user switches them off.
pub fn default_alerts_enabled() -> (r: bool)
    ensures
        r,
{
    true
}

/// Unit auto-selection is on unless the user switches it off.
pub fn default_auto_units() -> (r: bool)
    ensures
        r,
{
    true
}

/// The countries that officially use imperial units.
pub open spec fn imperial_country_spec(country: Seq<char>) -> bool {
    country == "United States"@ || country == "Liberia"@ || country == "Myanmar"@
}

/// Whether the country uses imperial units (Fahrenheit, mph, miles).
pub fn uses_imperial_units(country: &str) -> (r: bool)
    ensures
        r == imperial_country_spec(country@),
{
    str_eq(country, "United States") || str_eq(country, "Liberia") || str_eq(country, "Myanmar")
}

/// The units auto-selection picks for a detected country, or `None`
/// where auto-selection is off and the preference is left alone.
pub open spec fn units_for_country_spec(country: Seq<char>, auto_units: bool) -> Option<
    (TemperatureUnit, MeasurementSystem),
> {
    if !auto_units {
        None
    } else if imperial_country_spec(country) {
        Some((TemperatureUnit::Fahrenheit, MeasurementSystem::Imperial))
    } else {
        Some((TemperatureUnit::Celsius, MeasurementSystem::Metric))
    }
}

/// Units to apply for a detected country under the auto-units setting.
pub fn units_for_country(country: &str, auto_units: bool) -> (r: Option<
    (TemperatureUnit, MeasurementSystem),
>)
    ensures
        r == units_for_country_spec(country@, auto_units),
{
    if !auto_units {
        None
    } else if uses_imperial_units(country) {
        Some((TemperatureUnit::Fahrenheit, MeasurementSystem::Imperial))
    } else {
        Some((TemperatureUnit::Celsius, MeasurementSystem::Metric))
    }
}

} // verus!
