use weather::error::WeatherError;
use weather::request::{forecast_request, forecast_url};

#[test]
fn url_for_lima_coordinates() {
    let url = forecast_url("-12.04", "-77.03");
    assert_eq!(
        url,
        "https://api.open-meteo.com/v1/forecast?latitude=-12.04&longitude=-77.03&hourly=temperature_2m,windspeed_80m"
    );
}

#[test]
fn url_for_integer_coordinates() {
    let url = forecast_url("52", "13.4");
    assert_eq!(
        url,
        "https://api.open-meteo.com/v1/forecast?latitude=52&longitude=13.4&hourly=temperature_2m,windspeed_80m"
    );
}

#[test]
fn request_parses_for_plain_coordinates() {
    let req = forecast_request("-12.04", "-77.03");
    assert!(req.is_ok());
    assert_eq!(
        req.unwrap().as_str(),
        "https://api.open-meteo.com/v1/forecast?latitude=-12.04&longitude=-77.03&hourly=temperature_2m,windspeed_80m"
    );
}

#[test]
fn error_messages_name_each_failure() {
    assert_eq!(WeatherError::UrlError.describe(), "the request URL is malformed");
    assert_eq!(
        WeatherError::NetworkError.describe(),
        "the weather service could not be reached"
    );
    assert_eq!(
        WeatherError::DecodeError.describe(),
        "the response is not a valid forecast document"
    );
    assert_eq!(
        WeatherError::TimeParseError.describe(),
        "an hourly timestamp is malformed"
    );
    assert_eq!(
        WeatherError::IndexError.describe(),
        "the forecast holds fewer hours than requested"
    );
}
