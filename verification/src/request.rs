use vstd::prelude::*;

use crate::error::WeatherError;

verus! {

/// Whether `url::Url::parse` accepts the given text as an absolute URL.
/// The outcome depends on the characters of the text alone.
pub uninterp spec fn url_parse_accepts(s: Seq<char>) -> bool;

/// The URL that `url::Url::parse` yields for the given text, where it
/// accepts the text.  The result depends on the characters of the text
/// alone.
pub uninterp spec fn url_parse_result(s: Seq<char>) -> url::Url;

#[verifier::external_type_specification]
#[verifier::external_body]
pub struct ExUrl(url::Url);

/// Relies on `url::Url::parse`: it returns `Ok` exactly when the text parses
/// as an absolute URL, then holding the URL parsed from that text, and the
/// outcome is a function of the text alone.
#[verifier::external_body]
fn parse_url(s: &str) -> (r: Option<url::Url>)
    ensures
        r is Some <==> url_parse_accepts(s@),
        r matches Some(u) ==> u == url_parse_result(s@),
{
    match url::Url::parse(s) {
        Ok(u) => Some(u),
        Err(_) => None,
    }
}

/// The full request text for a pair of coordinate texts: the forecast
/// endpoint with `latitude`, `longitude` and the two hourly series.
pub open spec fn forecast_url_text(lat: Seq<char>, lon: Seq<char>) -> Seq<char> {
    "https://api.open-meteo.com/v1/forecast?latitude="@ + lat + "&longitude="@ + lon
        + "&hourly=temperature_2m,windspeed_80m"@
}

/// Builds the request URL text for the given coordinate texts.  The first
/// argument fills the `latitude` query slot, the second the `longitude` slot.
pub fn forecast_url(lat: &str, lon: &str) -> (r: String)
    ensures
        r@ == forecast_url_text(lat@, lon@),
{
    let mut r = String::from_str("https://api.open-meteo.com/v1/forecast?latitude=");
    r.append(lat);
    r.append("&longitude=");
    r.append(lon);
    r.append("&hourly=temperature_2m,windspeed_80m");
    proof {
        assert(r@ =~= forecast_url_text(lat@, lon@));
    }
    r
}

/// Builds the request URL for the given coordinate texts and parses it.
/// Succeeds exactly when the built text is a valid absolute URL, and then
/// holds the URL parsed from that very text; otherwise the whole lookup
/// fails with `UrlError`.
pub fn forecast_request(lat: &str, lon: &str) -> (r: Result<url::Url, WeatherError>)
    ensures
        r is Ok <==> url_parse_accepts(forecast_url_text(lat@, lon@)),
        r matches Ok(u) ==> u == url_parse_result(forecast_url_text(lat@, lon@)),
        r is Err ==> r == Err::<url::Url, WeatherError>(WeatherError::UrlError),
{
    let text = forecast_url(lat, lon);
    match parse_url(text.as_str()) {
        Some(u) => Ok(u),
        None => Err(WeatherError::UrlError),
    }
}

} // verus!
