use tempest::display::{
    aqi_standard_for_region, aqi_standard_label, aqi_to_description, eu_aqi_to_description,
    format_date, format_hour, format_time, location_display_name, us_aqi_to_description,
    weathercode_to_description, weathercode_to_icon_name, wind_direction_to_compass, AqiStandard,
};
use tempest::geo::Region;
use tempest::timestamp::{alert_is_live, default_expiry};
use tempest::units::{
    default_alerts_enabled, default_auto_units, units_for_country, uses_imperial_units,
    MeasurementSystem, TemperatureUnit,
};

#[test]
fn weather_codes_describe() {
    assert_eq!(weathercode_to_description(0), "Clear sky");
    assert_eq!(weathercode_to_description(55), "Drizzle");
    assert_eq!(weathercode_to_description(81), "Rain showers");
    assert_eq!(weathercode_to_description(99), "Thunderstorm with hail");
    assert_eq!(weathercode_to_description(42), "Unknown");
}

#[test]
fn weather_icons_follow_day_and_night() {
    assert_eq!(weathercode_to_icon_name(0, false), "weather-clear");
    assert_eq!(weathercode_to_icon_name(0, true), "weather-clear-night");
    assert_eq!(weathercode_to_icon_name(95, false), "weather-storm");
    assert_eq!(weathercode_to_icon_name(42, false), "weather-severe-alert");
}

#[test]
fn compass_points() {
    assert_eq!(wind_direction_to_compass(0), "N");
    assert_eq!(wind_direction_to_compass(45), "NE");
    assert_eq!(wind_direction_to_compass(90), "E");
    assert_eq!(wind_direction_to_compass(180), "S");
    assert_eq!(wind_direction_to_compass(292), "W");
    assert_eq!(wind_direction_to_compass(350), "N");
    assert_eq!(wind_direction_to_compass(-5), "N");
}

#[test]
fn aqi_descriptions() {
    assert_eq!(us_aqi_to_description(50), "Good");
    assert_eq!(us_aqi_to_description(151), "Unhealthy");
    assert_eq!(us_aqi_to_description(301), "Hazardous");
    assert_eq!(eu_aqi_to_description(20), "Good");
    assert_eq!(eu_aqi_to_description(61), "Poor");
    assert_eq!(aqi_to_description(50, AqiStandard::European), "Moderate");
    assert_eq!(aqi_to_description(50, AqiStandard::Us), "Good");
}

#[test]
fn aqi_standard_per_region() {
    assert_eq!(aqi_standard_for_region(Region::Europe), AqiStandard::European);
    assert_eq!(aqi_standard_for_region(Region::Us), AqiStandard::Us);
    assert_eq!(aqi_standard_for_region(Region::Canada), AqiStandard::Us);
    assert_eq!(aqi_standard_label(AqiStandard::Us), "US AQI");
    assert_eq!(aqi_standard_label(AqiStandard::European), "EU AQI");
}

#[test]
fn hours_format_on_the_twelve_hour_clock() {
    assert_eq!(format_hour("2025-01-20T14:00"), "2:00 PM");
    assert_eq!(format_hour("2025-01-20T00:00"), "12:00 AM");
    assert_eq!(format_hour("2025-01-20T12:30"), "12:00 PM");
    assert_eq!(format_hour("2025-01-20T09:00"), "9:00 AM");
    assert_eq!(format_hour("2025-01-20T23:00"), "11:00 PM");
    assert_eq!(format_hour("no timestamp"), "no timestamp");
    assert_eq!(format_hour("2025-01-20T99999999999:00"), "2025-01-20T99999999999:00");
}

#[test]
fn times_format_with_minutes() {
    assert_eq!(format_time("2025-01-20T06:30:00"), "6:30 AM");
    assert_eq!(format_time("2025-01-20T18:05:00"), "6:05 PM");
    assert_eq!(format_time("2025-01-20T12:00"), "12:00 PM");
    assert_eq!(format_time("2025-01-20"), "2025-01-20");
}

#[test]
fn dates_format_with_weekday() {
    assert_eq!(format_date("2025-11-25"), "Tue Nov 25");
    assert_eq!(format_date("not a date"), "not a date");
}

#[test]
fn location_names_join_fields() {
    assert_eq!(
        location_display_name(
            "Boston",
            &Some("Massachusetts".to_string()),
            &Some("United States".to_string())
        ),
        "Boston, Massachusetts, United States"
    );
    assert_eq!(
        location_display_name("Boston", &None, &Some("United States".to_string())),
        "Boston, United States"
    );
    assert_eq!(location_display_name("Boston", &None, &None), "Boston");
}

#[test]
fn expiry_arithmetic() {
    assert_eq!(default_expiry(1_000), 87_400);
    assert_eq!(default_expiry(i64::MAX - 10), i64::MAX);
    assert!(!alert_is_live(100, 100));
    assert!(alert_is_live(101, 100));
    assert!(!alert_is_live(99, 100));
}

#[test]
fn unit_strings() {
    assert_eq!(TemperatureUnit::Fahrenheit.as_str(), "Fahrenheit");
    assert_eq!(TemperatureUnit::Celsius.symbol(), "°C");
    assert_eq!(TemperatureUnit::Celsius.api_param(), "celsius");
    assert_eq!(MeasurementSystem::Metric.as_str(), "Metric");
    assert_eq!(MeasurementSystem::Imperial.wind_speed_unit(), "mph");
    assert_eq!(MeasurementSystem::Metric.visibility_unit(), "km");
    assert_eq!(MeasurementSystem::Metric.wind_speed_api_param(), "kmh");
    assert!(default_alerts_enabled());
    assert!(default_auto_units());
}

#[test]
fn auto_units_follow_the_country() {
    assert!(uses_imperial_units("United States"));
    assert!(uses_imperial_units("Liberia"));
    assert!(!uses_imperial_units("Germany"));
    assert_eq!(
        units_for_country("United States", true),
        Some((TemperatureUnit::Fahrenheit, MeasurementSystem::Imperial))
    );
    assert_eq!(
        units_for_country("Germany", true),
        Some((TemperatureUnit::Celsius, MeasurementSystem::Metric))
    );
    assert_eq!(units_for_country("Germany", false), None);
}
