use weather::error::WeatherError;
use weather::forecast::{Forecast, Hourly};
use weather::render::render_forecast;

fn forecast_with_hours(n: usize) -> Forecast {
    let mut time: Vec<String> = Vec::new();
    let mut temperature_2m: Vec<String> = Vec::new();
    let mut windspeed_80m: Vec<String> = Vec::new();
    for i in 0..n {
        time.push(format!("2024-03-{:02}T{:02}:00", 1 + i / 24, i % 24));
        temperature_2m.push(format!("{}.5", i));
        windspeed_80m.push(format!("{}", 2 * i));
    }
    Forecast {
        latitude: "-12.04".to_string(),
        longitude: "-77.03".to_string(),
        timezone: "GMT".to_string(),
        elevation: "150".to_string(),
        hourly: Hourly { time, temperature_2m, windspeed_80m },
    }
}

#[test]
fn forty_eight_hours_render_in_full() {
    let f = forecast_with_hours(48);
    let blocks = render_forecast(&f).unwrap();
    assert_eq!(blocks.len(), 48);
    assert_eq!(blocks[0], "\n12 AM on Mar 1, 2024\n\t🌡️ Temperature: 0.5°C\n\t💨 Windspeed: 0\n");
    assert_eq!(
        blocks[14],
        "\n2 PM on Mar 1, 2024\n\t🌡️ Temperature: 14.5°C\n\t💨 Windspeed: 28\n"
    );
    assert_eq!(
        blocks[47],
        "\n11 PM on Mar 2, 2024\n\t🌡️ Temperature: 47.5°C\n\t💨 Windspeed: 94\n"
    );
}

#[test]
fn extra_hours_beyond_48_are_not_rendered() {
    let f = forecast_with_hours(60);
    let blocks = render_forecast(&f).unwrap();
    assert_eq!(blocks.len(), 48);
}

#[test]
fn forty_seven_hours_fail_with_an_index_error() {
    let f = forecast_with_hours(47);
    assert_eq!(render_forecast(&f).unwrap_err(), WeatherError::IndexError);
}

#[test]
fn a_short_series_fails_even_when_the_others_are_full() {
    let mut f = forecast_with_hours(48);
    f.hourly.windspeed_80m.pop();
    assert_eq!(render_forecast(&f).unwrap_err(), WeatherError::IndexError);
}

#[test]
fn a_malformed_timestamp_fails_with_a_time_parse_error() {
    let mut f = forecast_with_hours(48);
    f.hourly.time[30] = "not-a-date".to_string();
    assert_eq!(render_forecast(&f).unwrap_err(), WeatherError::TimeParseError);
}

#[test]
fn a_malformed_timestamp_past_hour_48_is_never_read() {
    let mut f = forecast_with_hours(60);
    f.hourly.time[55] = "not-a-date".to_string();
    assert!(render_forecast(&f).is_ok());
}
