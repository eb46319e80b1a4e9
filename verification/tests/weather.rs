use tenki::net::model::{Condition, Location, WeatherData};
use tenki::net::weather::time_of_day;

#[test]
fn extracts_time_of_day() {
    assert_eq!(time_of_day("2023-09-10T06:32"), "06:32");
}

#[test]
fn time_of_day_falls_back_when_no_t() {
    assert_eq!(time_of_day("06:32"), "06:32");
}

#[test]
fn time_of_day_stops_at_a_second_t() {
    assert_eq!(time_of_day("aTbTc"), "b");
    assert_eq!(time_of_day("2023-09-10T"), "");
}

#[test]
fn a_forecast_becomes_a_reading() {
    let location = Location {
        city: "Asahi".to_string(),
        region: "Chiba".to_string(),
        latitude_bits: 35.72f64.to_bits(),
        longitude_bits: 140.65f64.to_bits(),
    };
    let w = WeatherData::from_forecast(
        location,
        61,
        1,
        18.4f64.to_bits(),
        17.1f64.to_bits(),
        72.0f64.to_bits(),
        14.0f64.to_bits(),
        225.0f64.to_bits(),
        1013.0f64.to_bits(),
        &vec![4.2f64.to_bits(), 1.0f64.to_bits()],
        &vec![],
        &vec!["2023-09-10T05:21".to_string()],
        &vec![],
    );
    assert_eq!(w.condition, Condition::Rain);
    assert!(w.is_day);
    assert_eq!(f64::from_bits(w.temperature_c_bits), 18.4);
    assert_eq!(f64::from_bits(w.uv_index_bits), 4.2);
    assert_eq!(f64::from_bits(w.precipitation_probability_pct_bits), 0.0);
    assert_eq!(w.sunrise, "05:21");
    assert_eq!(w.sunset, "");
    assert_eq!(w.location.city, "Asahi");
}
