use vstd::prelude::*;

use crate::error::WeatherError;
use crate::forecast::{Forecast, HourlyModel};
use crate::time::{format_time_text, format_timestamp_text, parse_timestamp_text};

verus! {

/// How many hourly entries a report shows.
pub const HOURS_SHOWN: usize = 48;

/// One rendered hourly entry: a blank separator line, the human-readable
/// timestamp, the temperature line and the windspeed line.
pub open spec fn entry_block_text(date: Seq<char>, temp: Seq<char>, wind: Seq<char>) -> Seq<char> {
    "\n"@ + date + "\n\t🌡️ Temperature: "@ + temp + "°C\n\t💨 Windspeed: "@ + wind + "\n"@
}

/// Whether the three hourly series all hold at least the shown number of
/// entries.
pub open spec fn hourly_long_enough(m: HourlyModel) -> bool {
    &&& m.time.len() >= HOURS_SHOWN
    &&& m.temperature_2m.len() >= HOURS_SHOWN
    &&& m.windspeed_80m.len() >= HOURS_SHOWN
}

/// Whether every shown timestamp text parses.
pub open spec fn times_well_formed(m: HourlyModel) -> bool {
    forall|i: int| 0 <= i < HOURS_SHOWN ==> #[trigger] parse_timestamp_text(m.time[i]) is Some
}

/// The rendered block of hour `i` of the series.
pub open spec fn rendered_entry(m: HourlyModel, i: int) -> Seq<char> {
    entry_block_text(
        format_timestamp_text(parse_timestamp_text(m.time[i])->Some_0),
        m.temperature_2m[i],
        m.windspeed_80m[i],
    )
}

/// Renders the first 48 hours of a forecast, in order, one block per hour.
/// If any series holds fewer than 48 entries the report fails with
/// `IndexError`; otherwise, if any of the first 48 timestamp texts is
/// malformed, it fails with `TimeParseError`; otherwise all 48 blocks are
/// returned.
pub fn render_forecast(f: &Forecast) -> (r: Result<Vec<String>, WeatherError>)
    ensures
        !hourly_long_enough(f.hourly@) ==> r == Err::<Vec<String>, WeatherError>(
            WeatherError::IndexError,
        ),
        hourly_long_enough(f.hourly@) && !times_well_formed(f.hourly@) ==> r == Err::<
            Vec<String>,
            WeatherError,
        >(WeatherError::TimeParseError),
        hourly_long_enough(f.hourly@) && times_well_formed(f.hourly@) ==> (r matches Ok(v)
            && v@.len() == HOURS_SHOWN && (forall|i: int|
            0 <= i < HOURS_SHOWN ==> #[trigger] v@[i]@ == rendered_entry(f.hourly@, i))),
{
    if f.hourly.time.len() < HOURS_SHOWN || f.hourly.temperature_2m.len() < HOURS_SHOWN
        || f.hourly.windspeed_80m.len() < HOURS_SHOWN {
        return Err(WeatherError::IndexError);
    }
    let mut out: Vec<String> = Vec::new();
    let mut i: usize = 0;
    while i < HOURS_SHOWN
        invariant
            i <= HOURS_SHOWN,
            hourly_long_enough(f.hourly@),
            out@.len() == i,
            forall|j: int| 0 <= j < i ==> #[trigger] parse_timestamp_text(f.hourly@.time[j]) is Some,
            forall|j: int| 0 <= j < i ==> #[trigger] out@[j]@ == rendered_entry(f.hourly@, j),
        decreases HOURS_SHOWN - i,
    {
        let date = match format_time_text(f.hourly.time[i].as_str()) {
            Ok(d) => d,
            Err(e) => {
                return Err(e);
            },
        };
        let mut block = String::new();
        block.append("\n");
        block.append(date.as_str());
        block.append("\n\t🌡️ Temperature: ");
        block.append(f.hourly.temperature_2m[i].as_str());
        block.append("°C\n\t💨 Windspeed: ");
        block.append(f.hourly.windspeed_80m[i].as_str());
        block.append("\n");
        proof {
            assert(block@ =~= rendered_entry(f.hourly@, i as int));
        }
        out.push(block);
        i = i + 1;
    }
    Ok(out)
}

} // verus!
