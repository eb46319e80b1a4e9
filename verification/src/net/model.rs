//! The weather conditions the app distinguishes, and the WMO codes behind them.
use vstd::prelude::*;

verus! {

/// The conditions the display distinguishes.
#[derive(Debug, Clone, Copy, PartialEq, Eq, Structural)]
pub enum Condition {
    Clear,
    PartlyCloudy,
    Overcast,
    Fog,
    Drizzle,
    Rain,
    RainShowers,
    Freezing,
    Snow,
    SnowShowers,
    Thunderstorm,
}

/// The condition that a WMO weather-interpretation code stands for.
pub open spec fn wmo_condition(code: u32) -> Condition {
    if code == 0 {
        Condition::Clear
    } else if code == 1 || code == 2 {
        Condition::PartlyCloudy
    } else if code == 3 {
        Condition::Overcast
    } else if code == 45 || code == 48 {
        Condition::Fog
    } else if code == 51 || code == 53 || code == 55 {
        Condition::Drizzle
    } else if code == 56 || code == 57 || code == 66 || code == 67 {
        Condition::Freezing
    } else if code == 61 || code == 63 || code == 65 {
        Condition::Rain
    } else if code == 71 || code == 73 || code == 75 || code == 77 {
        Condition::Snow
    } else if code == 80 || code == 81 || code == 82 {
        Condition::RainShowers
    } else if code == 85 || code == 86 {
        Condition::SnowShowers
    } else if code == 95 || code == 96 || code == 99 {
        Condition::Thunderstorm
    } else {
        Condition::PartlyCloudy
    }
}

impl Condition {
    /// Map an Open-Meteo / WMO weather code to a condition; unknown codes read as partly cloudy.
    pub fn from_wmo_code(code: u32) -> (c: Condition)
        ensures
            c == wmo_condition(code),
    {
        match code {
            0 => Condition::Clear,
            1 | 2 => Condition::PartlyCloudy,
            3 => Condition::Overcast,
            45 | 48 => Condition::Fog,
            51 | 53 | 55 => Condition::Drizzle,
            56 | 57 => Condition::Freezing,
            61 | 63 | 65 => Condition::Rain,
            66 | 67 => Condition::Freezing,
            71 | 73 | 75 | 77 => Condition::Snow,
            80 | 81 | 82 => Condition::RainShowers,
            85 | 86 => Condition::SnowShowers,
            95 | 96 | 99 => Condition::Thunderstorm,
            _ => Condition::PartlyCloudy,
        }
    }

    /// The word shown under the big temperature.
    pub fn label(&self) -> (s: &'static str)
        ensures
            s@ == condition_label(*self),
    {
        match self {
            Condition::Clear => "CLEAR",
            Condition::PartlyCloudy => "CLOUDY",
            Condition::Overcast => "OVERCAST",
            Condition::Fog => "FOG",
            Condition::Drizzle => "DRIZZLE",
            Condition::Rain => "RAIN",
            Condition::RainShowers => "SHOWERS",
            Condition::Freezing => "FREEZING",
            Condition::Snow => "SNOW",
            Condition::SnowShowers => "SNOW",
            Condition::Thunderstorm => "STORM",
        }
    }
}

/// The word shown under the big temperature for each condition.
pub open spec fn condition_label(c: Condition) -> Seq<char> {
    match c {
        Condition::Clear => "CLEAR"@,
        Condition::PartlyCloudy => "CLOUDY"@,
        Condition::Overcast => "OVERCAST"@,
        Condition::Fog => "FOG"@,
        Condition::Drizzle => "DRIZZLE"@,
        Condition::Rain => "RAIN"@,
        Condition::RainShowers => "SHOWERS"@,
        Condition::Freezing => "FREEZING"@,
        Condition::Snow | Condition::SnowShowers => "SNOW"@,
        Condition::Thunderstorm => "STORM"@,
    }
}


/// A place on the map: a display name and its coordinates. The coordinates are carried
/// as the IEEE-754 bit patterns of the degrees, which the logic only passes along.
#[derive(Debug)]
pub struct Location {
    pub city: String,
    pub region: String,
    pub latitude_bits: u64,
    pub longitude_bits: u64,
}

/// What a [`Location`] holds, as mathematical values.
#[verifier::ext_equal]
pub struct LocationView {
    pub city: Seq<char>,
    pub region: Seq<char>,
    pub latitude_bits: u64,
    pub longitude_bits: u64,
}

impl View for Location {
    type V = LocationView;

    open spec fn view(&self) -> LocationView {
        LocationView {
            city: self.city@,
            region: self.region@,
            latitude_bits: self.latitude_bits,
            longitude_bits: self.longitude_bits,
        }
    }
}

impl Clone for Location {
    fn clone(&self) -> (r: Location)
        ensures
            r@ == self@,
    {
        Location {
            city: self.city.clone(),
            region: self.region.clone(),
            latitude_bits: self.latitude_bits,
            longitude_bits: self.longitude_bits,
        }
    }
}

/// One candidate the user can pick in the location search.
#[derive(Debug)]
pub struct Place {
    pub location: Location,
    /// The full "Mitte, Berlin, Germany" line shown in the picker.
    pub label: String,
}

#[verifier::ext_equal]
pub struct PlaceView {
    pub location: LocationView,
    pub label: Seq<char>,
}

impl View for Place {
    type V = PlaceView;

    open spec fn view(&self) -> PlaceView {
        PlaceView { location: self.location@, label: self.label@ }
    }
}

impl Clone for Place {
    fn clone(&self) -> (r: Place)
        ensures
            r@ == self@,
    {
        Place { location: self.location.clone(), label: self.label.clone() }
    }
}

/// One reading of the current weather. The measured quantities are carried as the
/// IEEE-754 bit patterns of their values in the units the field names give.
#[derive(Debug)]
pub struct WeatherData {
    pub location: Location,
    pub condition: Condition,
    pub is_day: bool,
    pub temperature_c_bits: u64,
    pub feels_like_c_bits: u64,
    pub humidity_pct_bits: u64,
    pub wind_speed_kmh_bits: u64,
    pub wind_direction_deg_bits: u64,
    pub pressure_hpa_bits: u64,
    pub uv_index_bits: u64,
    pub precipitation_probability_pct_bits: u64,
    /// Local "HH:MM" time of sunrise.
    pub sunrise: String,
    /// Local "HH:MM" time of sunset.
    pub sunset: String,
}

#[verifier::ext_equal]
pub struct WeatherView {
    pub location: LocationView,
    pub condition: Condition,
    pub is_day: bool,
    pub measurements: Seq<u64>,
    pub sunrise: Seq<char>,
    pub sunset: Seq<char>,
}

impl View for WeatherData {
    type V = WeatherView;

    open spec fn view(&self) -> WeatherView {
        WeatherView {
            location: self.location@,
            condition: self.condition,
            is_day: self.is_day,
            measurements: seq![
                self.temperature_c_bits,
                self.feels_like_c_bits,
                self.humidity_pct_bits,
                self.wind_speed_kmh_bits,
                self.wind_direction_deg_bits,
                self.pressure_hpa_bits,
                self.uv_index_bits,
                self.precipitation_probability_pct_bits,
            ],
            sunrise: self.sunrise@,
            sunset: self.sunset@,
        }
    }
}

impl Clone for WeatherData {
    fn clone(&self) -> (r: WeatherData)
        ensures
            r@ == self@,
    {
        WeatherData {
            location: self.location.clone(),
            condition: self.condition,
            is_day: self.is_day,
            temperature_c_bits: self.temperature_c_bits,
            feels_like_c_bits: self.feels_like_c_bits,
            humidity_pct_bits: self.humidity_pct_bits,
            wind_speed_kmh_bits: self.wind_speed_kmh_bits,
            wind_direction_deg_bits: self.wind_direction_deg_bits,
            pressure_hpa_bits: self.pressure_hpa_bits,
            uv_index_bits: self.uv_index_bits,
            precipitation_probability_pct_bits: self.precipitation_probability_pct_bits,
            sunrise: self.sunrise.clone(),
            sunset: self.sunset.clone(),
        }
    }
}

} // verus!
