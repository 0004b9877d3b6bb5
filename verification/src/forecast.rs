use vstd::prelude::*;

verus! {

/// Three index-aligned hourly series: one timestamp text, one temperature
/// and one windspeed per hour.  The numeric values are carried as their
/// decimal texts; nothing here computes with them.
#[derive(Debug)]
pub struct Hourly {
    pub time: Vec<String>,
    pub temperature_2m: Vec<String>,
    pub windspeed_80m: Vec<String>,
}

/// A decoded forecast: the coordinates and site data echoed by the weather
/// service, and the hourly series.  The numeric fields are carried as their
/// decimal texts.
#[derive(Debug)]
pub struct Forecast {
    pub latitude: String,
    pub longitude: String,
    pub timezone: String,
    pub elevation: String,
    pub hourly: Hourly,
}

/// The mathematical content of an [`Hourly`]: each series as a sequence of
/// texts.
pub struct HourlyModel {
    pub time: Seq<Seq<char>>,
    pub temperature_2m: Seq<Seq<char>>,
    pub windspeed_80m: Seq<Seq<char>>,
}

/// The mathematical content of a [`Forecast`].
pub struct ForecastModel {
    pub latitude: Seq<char>,
    pub longitude: Seq<char>,
    pub timezone: Seq<char>,
    pub elevation: Seq<char>,
    pub hourly: HourlyModel,
}

impl View for Hourly {
    type V = HourlyModel;

    open spec fn view(&self) -> HourlyModel {
        HourlyModel {
            time: self.time.deep_view(),
            temperature_2m: self.temperature_2m.deep_view(),
            windspeed_80m: self.windspeed_80m.deep_view(),
        }
    }
}

impl View for Forecast {
    type V = ForecastModel;

    open spec fn view(&self) -> ForecastModel {
        ForecastModel {
            latitude: self.latitude@,
            longitude: self.longitude@,
            timezone: self.timezone@,
            elevation: self.elevation@,
            hourly: self.hourly@,
        }
    }
}

} // verus!
