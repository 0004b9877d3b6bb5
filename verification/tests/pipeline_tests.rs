use weather::json::decode_forecast;
use weather::render::render_forecast;

fn full_document(hours: usize) -> String {
    let mut body = String::new();
    body.push_str("{\"latitude\":-12.04,\"longitude\":-77.03,\"timezone\":\"GMT\",");
    body.push_str("\"elevation\":150.0,\"hourly\":{\"time\":[");
    for i in 0..hours {
        if i > 0 {
            body.push(',');
        }
        body.push_str(&format!("\"2024-03-{:02}T{:02}:00\"", 1 + i / 24, i % 24));
    }
    body.push_str("],\"temperature_2m\":[");
    for i in 0..hours {
        if i > 0 {
            body.push(',');
        }
        body.push_str(&format!("{}.25", i));
    }
    body.push_str("],\"windspeed_80m\":[");
    for i in 0..hours {
        if i > 0 {
            body.push(',');
        }
        body.push_str(&format!("{}", 3 * i));
    }
    body.push_str("]}}");
    body
}

#[test]
fn a_decoded_document_renders_its_first_48_hours() {
    let f = decode_forecast(&full_document(48)).unwrap();
    let blocks = render_forecast(&f).unwrap();
    assert_eq!(blocks.len(), 48);
    assert_eq!(blocks[0], "\n12 AM on Mar 1, 2024\n\t🌡️ Temperature: 0.25°C\n\t💨 Windspeed: 0\n");
    assert_eq!(
        blocks[47],
        "\n11 PM on Mar 2, 2024\n\t🌡️ Temperature: 47.25°C\n\t💨 Windspeed: 141\n"
    );
}

#[test]
fn a_document_short_of_48_hours_decodes_but_does_not_render() {
    let f = decode_forecast(&full_document(47)).unwrap();
    assert_eq!(f.hourly.time.len(), 47);
    assert_eq!(
        render_forecast(&f).unwrap_err(),
        weather::error::WeatherError::IndexError
    );
}
