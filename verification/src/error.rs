use vstd::prelude::*;

verus! {

/// The ways a weather lookup can fail.  Every failure is fatal: the caller
/// reports the message from [`WeatherError::describe`] and stops.
#[derive(Clone, Copy, Debug, PartialEq, Eq, Structural)]
pub enum WeatherError {
    /// The request URL could not be parsed as a valid URL.
    UrlError,
    /// The HTTP request itself failed (connection, DNS, transport).
    NetworkError,
    /// The response body is not valid JSON or does not match the schema.
    DecodeError,
    /// An hourly timestamp does not match the `YYYY-MM-DDTHH:MM` format.
    TimeParseError,
    /// An hourly series holds fewer than the required number of entries.
    IndexError,
}

/// The human-readable message that belongs to each failure.
pub open spec fn describe_text(e: WeatherError) -> Seq<char> {
    match e {
        WeatherError::UrlError => "the request URL is malformed"@,
        WeatherError::NetworkError => "the weather service could not be reached"@,
        WeatherError::DecodeError => "the response is not a valid forecast document"@,
        WeatherError::TimeParseError => "an hourly timestamp is malformed"@,
        WeatherError::IndexError => "the forecast holds fewer hours than requested"@,
    }
}

impl WeatherError {
    /// A human-readable message for this failure.
    pub fn describe(&self) -> (r: String)
        ensures
            r@ == describe_text(*self),
    {
        match self {
            WeatherError::UrlError => String::from_str("the request URL is malformed"),
            WeatherError::NetworkError => String::from_str(
                "the weather service could not be reached",
            ),
            WeatherError::DecodeError => String::from_str(
                "the response is not a valid forecast document",
            ),
            WeatherError::TimeParseError => String::from_str("an hourly timestamp is malformed"),
            WeatherError::IndexError => String::from_str(
                "the forecast holds fewer hours than requested",
            ),
        }
    }
}

} // verus!
