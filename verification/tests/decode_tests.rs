use weather::error::WeatherError;
use weather::json::decode_forecast;

fn sample_document() -> String {
    let mut body = String::new();
    body.push_str("{\"latitude\":-12.04,\"longitude\":-77.03,");
    body.push_str("\"generationtime_ms\":0.25,\"utc_offset_seconds\":0,");
    body.push_str("\"timezone\":\"GMT\",\"timezone_abbreviation\":\"GMT\",");
    body.push_str("\"elevation\":150.0,");
    body.push_str("\"hourly_units\":{\"time\":\"iso8601\",\"temperature_2m\":\"\\u00b0C\"},");
    body.push_str("\"hourly\":{");
    body.push_str("\"time\":[\"2024-03-15T14:00\",\"2024-03-15T15:00\"],");
    body.push_str("\"temperature_2m\":[21.4,22.0],");
    body.push_str("\"windspeed_80m\":[3.5,4.1]}}");
    body
}

#[test]
fn schema_fields_round_trip_through_decoding() {
    let f = decode_forecast(&sample_document()).unwrap();
    assert_eq!(f.latitude, "-12.04");
    assert_eq!(f.longitude, "-77.03");
    assert_eq!(f.timezone, "GMT");
    assert_eq!(f.elevation, "150.0");
    assert_eq!(f.hourly.time, vec!["2024-03-15T14:00", "2024-03-15T15:00"]);
    assert_eq!(f.hourly.temperature_2m, vec!["21.4", "22.0"]);
    assert_eq!(f.hourly.windspeed_80m, vec!["3.5", "4.1"]);
}

#[test]
fn unknown_members_are_ignored() {
    let body = "{\"latitude\":1,\"longitude\":2,\"timezone\":\"UTC\",\"elevation\":3,\
        \"extra\":[true,false,null,{\"deep\":[1,2,{}]},\"quoted \\\" mark\"],\
        \"hourly\":{\"note\":\"none\",\"time\":[],\"temperature_2m\":[],\"windspeed_80m\":[]}}";
    let f = decode_forecast(body).unwrap();
    assert_eq!(f.latitude, "1");
    assert_eq!(f.timezone, "UTC");
    assert_eq!(f.hourly.time.len(), 0);
}

#[test]
fn whitespace_and_number_forms_are_accepted() {
    let body = " {\n\t\"latitude\" : -0.5e-2 ,\r\n \"longitude\": 1E3, \"timezone\": \"\",\
        \"elevation\": 0,\
        \"hourly\": { \"time\": [ \"2024-01-01T00:00\" ], \"temperature_2m\": [ -0.0 ],\
        \"windspeed_80m\": [ 12.25 ] } } ";
    let f = decode_forecast(body).unwrap();
    assert_eq!(f.latitude, "-0.5e-2");
    assert_eq!(f.longitude, "1E3");
    assert_eq!(f.timezone, "");
    assert_eq!(f.elevation, "0");
    assert_eq!(f.hourly.temperature_2m, vec!["-0.0"]);
}

#[test]
fn escapes_in_schema_strings_are_decoded() {
    let body = "{\"latitude\":1,\"longitude\":2,\"timezone\":\"a\\u0041b\",\"elevation\":3,\
        \"hourly\":{\"time\":[\"x\\ny\",\"q\\\"r\",\"s\\\\t\",\"u\\/v\"],\
        \"temperature_2m\":[1],\"windspeed_80m\":[2]}}";
    let f = decode_forecast(body).unwrap();
    assert_eq!(f.timezone, "aAb");
    assert_eq!(f.hourly.time, vec!["x\ny", "q\"r", "s\\t", "u/v"]);
}

#[test]
fn escapes_in_schema_keys_are_decoded() {
    let body = "{\"latitud\\u0065\":1,\"longitude\":2,\"timezone\":\"GMT\",\"elevation\":3,\
        \"\\u0068ourly\":{\"tim\\u0065\":[],\"temperature_2m\":[],\"windspeed_80m\":[]}}";
    let f = decode_forecast(body).unwrap();
    assert_eq!(f.latitude, "1");
    assert_eq!(f.hourly.time.len(), 0);
}

#[test]
fn surrogate_pair_escapes_become_one_character() {
    let body = "{\"latitude\":1,\"longitude\":2,\"timezone\":\"\\uD834\\uDD1E\",\"elevation\":3,\
        \"hourly\":{\"time\":[],\"temperature_2m\":[],\"windspeed_80m\":[]}}";
    let f = decode_forecast(body).unwrap();
    assert_eq!(f.timezone, "\u{1D11E}");
}

#[test]
fn bad_escapes_fail_decoding_anywhere() {
    let unknown_member = "{\"latitude\":1,\"longitude\":2,\"timezone\":\"GMT\",\"elevation\":3,\
        \"extra\":\"a\\qb\",\
        \"hourly\":{\"time\":[],\"temperature_2m\":[],\"windspeed_80m\":[]}}";
    assert_eq!(decode_forecast(unknown_member).unwrap_err(), WeatherError::DecodeError);
    let lone_high = "{\"latitude\":1,\"longitude\":2,\"timezone\":\"\\uD834x\",\"elevation\":3,\
        \"hourly\":{\"time\":[],\"temperature_2m\":[],\"windspeed_80m\":[]}}";
    assert_eq!(decode_forecast(lone_high).unwrap_err(), WeatherError::DecodeError);
    let lone_low = "{\"latitude\":1,\"longitude\":2,\"timezone\":\"\\uDD1E\",\"elevation\":3,\
        \"hourly\":{\"time\":[],\"temperature_2m\":[],\"windspeed_80m\":[]}}";
    assert_eq!(decode_forecast(lone_low).unwrap_err(), WeatherError::DecodeError);
    let short_hex = "{\"latitude\":1,\"longitude\":2,\"timezone\":\"\\u00\",\"elevation\":3,\
        \"hourly\":{\"time\":[],\"temperature_2m\":[],\"windspeed_80m\":[]}}";
    assert_eq!(decode_forecast(short_hex).unwrap_err(), WeatherError::DecodeError);
}

#[test]
fn missing_hourly_member_fails_decoding() {
    let body = "{\"latitude\":-12.04,\"longitude\":-77.03,\"timezone\":\"GMT\",\"elevation\":150.0}";
    assert_eq!(decode_forecast(body).unwrap_err(), WeatherError::DecodeError);
}

#[test]
fn missing_series_inside_hourly_fails_decoding() {
    let body = "{\"latitude\":1,\"longitude\":2,\"timezone\":\"GMT\",\"elevation\":3,\
        \"hourly\":{\"time\":[],\"temperature_2m\":[]}}";
    assert_eq!(decode_forecast(body).unwrap_err(), WeatherError::DecodeError);
}

#[test]
fn broken_documents_fail_decoding() {
    assert_eq!(decode_forecast("").unwrap_err(), WeatherError::DecodeError);
    assert_eq!(decode_forecast("null").unwrap_err(), WeatherError::DecodeError);
    assert_eq!(decode_forecast("{").unwrap_err(), WeatherError::DecodeError);
    assert_eq!(decode_forecast("{}").unwrap_err(), WeatherError::DecodeError);
    assert_eq!(
        decode_forecast("{\"latitude\":01}").unwrap_err(),
        WeatherError::DecodeError
    );
    assert_eq!(
        decode_forecast("{\"latitude\":1,}").unwrap_err(),
        WeatherError::DecodeError
    );
    let trailing = format!("{} extra", sample_document());
    assert_eq!(decode_forecast(&trailing).unwrap_err(), WeatherError::DecodeError);
}

#[test]
fn repeated_schema_members_fail_decoding() {
    let body = "{\"latitude\":1,\"latitude\":2,\"longitude\":2,\"timezone\":\"GMT\",\
        \"elevation\":3,\"hourly\":{\"time\":[],\"temperature_2m\":[],\"windspeed_80m\":[]}}";
    assert_eq!(decode_forecast(body).unwrap_err(), WeatherError::DecodeError);
}

#[test]
fn wrongly_typed_schema_members_fail_decoding() {
    let body = "{\"latitude\":\"north\",\"longitude\":2,\"timezone\":\"GMT\",\"elevation\":3,\
        \"hourly\":{\"time\":[],\"temperature_2m\":[],\"windspeed_80m\":[]}}";
    assert_eq!(decode_forecast(body).unwrap_err(), WeatherError::DecodeError);
    let body2 = "{\"latitude\":1,\"longitude\":2,\"timezone\":\"GMT\",\"elevation\":3,\
        \"hourly\":{\"time\":[17],\"temperature_2m\":[],\"windspeed_80m\":[]}}";
    assert_eq!(decode_forecast(body2).unwrap_err(), WeatherError::DecodeError);
}
