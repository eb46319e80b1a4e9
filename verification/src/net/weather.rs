//! Reading the forecast: the time of day in a timestamp, and the reading built from
//! the forecast's fields.
use vstd::prelude::*;

use crate::net::model::{wmo_condition, Condition, Location, LocationView, WeatherData, WeatherView};
use crate::text::{chars_of, index_of, string_of};

verus! {

/// The part of `iso` between its first `T` and the next one (or the end); all of
/// `iso` if it has no `T`. For "2023-09-10T06:32" that is "06:32".
pub open spec fn time_part(iso: Seq<char>) -> Seq<char> {
    let k = index_of(iso, 'T');
    if k == iso.len() {
        iso
    } else {
        let rest = iso.skip(k + 1int);
        rest.take(index_of(rest, 'T') as int)
    }
}

fn find(v: &[char], from: usize, c: char) -> (k: usize)
    requires
        from <= v@.len(),
    ensures
        from <= k <= v@.len(),
        k == from + index_of(v@.skip(from as int), c),
{
    let mut k = from;
    assert(v@.skip(from as int).skip(0) =~= v@.skip(from as int));
    while k < v.len() && v[k] != c
        invariant
            from <= k <= v@.len(),
            index_of(v@.skip(from as int), c) == (k - from) + index_of(v@.skip(k as int), c),
        decreases v.len() - k,
    {
        assert(v@.skip(k as int).drop_first() =~= v@.skip(k + 1));
        assert(v@.skip(k as int)[0] == v@[k as int]);
        k = k + 1;
    }
    if k < v.len() {
        assert(v@.skip(k as int)[0] == v@[k as int]);
    }
    k
}

/// Extracts "HH:MM" from an Open-Meteo local ISO 8601 timestamp like "2023-09-10T06:32".
pub fn time_of_day(iso: &str) -> (r: String)
    ensures
        r@ == time_part(iso@),
{
    let v = chars_of(iso);
    assert(v@.skip(0) =~= v@);
    let k = find(v.as_slice(), 0, 'T');
    if k == v.len() {
        return string_of(v.as_slice(), 0, v.len());
    }
    let e = find(v.as_slice(), k + 1, 'T');
    let ghost rest = v@.skip(k + 1);
    assert(rest.take(e - k - 1) =~= v@.subrange(k + 1, e as int));
    proof {
        if k == v.len() {
            assert(v@.subrange(0, v@.len() as int) =~= v@);
        }
    }
    string_of(v.as_slice(), k + 1, e)
}

/// The first value of a daily series, or the bits of 0.0 (all zero) if there is none.
pub open spec fn first_or_zero(v: Seq<u64>) -> u64 {
    if v.len() > 0 {
        v[0]
    } else {
        0
    }
}

/// The time of day of the first value of a daily series, or nothing.
pub open spec fn first_time(v: Seq<Seq<char>>) -> Seq<char> {
    if v.len() > 0 {
        time_part(v[0])
    } else {
        Seq::empty()
    }
}

impl WeatherData {
    /// The reading made of a forecast's current values and its daily series. The
    /// quantities are IEEE-754 bit patterns; `is_day` is 1 by day.
    pub fn from_forecast(
        location: Location,
        weather_code: u32,
        is_day: u8,
        temperature_bits: u64,
        apparent_temperature_bits: u64,
        relative_humidity_bits: u64,
        wind_speed_bits: u64,
        wind_direction_bits: u64,
        surface_pressure_bits: u64,
        uv_index_max: &Vec<u64>,
        precipitation_probability_max: &Vec<u64>,
        sunrise: &Vec<String>,
        sunset: &Vec<String>,
    ) -> (w: WeatherData)
        ensures
            w@ == (WeatherView {
                location: location@,
                condition: wmo_condition(weather_code),
                is_day: is_day == 1,
                measurements: seq![
                    temperature_bits,
                    apparent_temperature_bits,
                    relative_humidity_bits,
                    wind_speed_bits,
                    wind_direction_bits,
                    surface_pressure_bits,
                    first_or_zero(uv_index_max@),
                    first_or_zero(precipitation_probability_max@),
                ],
                sunrise: first_time(sunrise@.map_values(|s: String| s@)),
                sunset: first_time(sunset@.map_values(|s: String| s@)),
            }),
    {
        let uv = if uv_index_max.len() > 0 {
            uv_index_max[0]
        } else {
            0
        };
        let rain = if precipitation_probability_max.len() > 0 {
            precipitation_probability_max[0]
        } else {
            0
        };
        let rise = if sunrise.len() > 0 {
            time_of_day(sunrise[0].as_str())
        } else {
            String::new()
        };
        let set = if sunset.len() > 0 {
            time_of_day(sunset[0].as_str())
        } else {
            String::new()
        };
        let w = WeatherData {
            location,
            condition: Condition::from_wmo_code(weather_code),
            is_day: is_day == 1,
            temperature_c_bits: temperature_bits,
            feels_like_c_bits: apparent_temperature_bits,
            humidity_pct_bits: relative_humidity_bits,
            wind_speed_kmh_bits: wind_speed_bits,
            wind_direction_deg_bits: wind_direction_bits,
            pressure_hpa_bits: surface_pressure_bits,
            uv_index_bits: uv,
            precipitation_probability_pct_bits: rain,
            sunrise: rise,
            sunset: set,
        };
        assert(w@.measurements =~= seq![
            temperature_bits,
            apparent_temperature_bits,
            relative_humidity_bits,
            wind_speed_bits,
            wind_direction_bits,
            surface_pressure_bits,
            first_or_zero(uv_index_max@),
            first_or_zero(precipitation_probability_max@),
        ]);
        w
    }
}

} // verus!
