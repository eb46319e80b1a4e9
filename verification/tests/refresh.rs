use tenki::net::model::{Condition, Location, WeatherData};
use tenki::refresh::{after_message, pinned_after, start_location, Fetch, REFRESH_INTERVAL_SECS};

fn location(city: &str) -> Location {
    Location {
        city: city.to_string(),
        region: String::new(),
        latitude_bits: 1.0f64.to_bits(),
        longitude_bits: 2.0f64.to_bits(),
    }
}

fn reading(at: Location) -> WeatherData {
    WeatherData {
        location: at,
        condition: Condition::Clear,
        is_day: true,
        temperature_c_bits: 0,
        feels_like_c_bits: 0,
        humidity_pct_bits: 0,
        wind_speed_kmh_bits: 0,
        wind_direction_deg_bits: 0,
        pressure_hpa_bits: 0,
        uv_index_bits: 0,
        precipitation_probability_pct_bits: 0,
        sunrise: String::new(),
        sunset: String::new(),
    }
}

#[test]
fn given_coordinates_beat_the_saved_place() {
    let r = start_location(Some(location("Given")), Some(location("Saved")));
    assert_eq!(r.unwrap().city, "Given");
    let r = start_location(None, Some(location("Saved")));
    assert_eq!(r.unwrap().city, "Saved");
    assert!(start_location(None, None).is_none());
}

#[test]
fn a_reading_pins_its_place() {
    let r = pinned_after(None, &Ok(reading(location("Asahi"))));
    assert_eq!(r.unwrap().city, "Asahi");
    let r = pinned_after(Some(location("Mitte")), &Ok(reading(location("Asahi"))));
    assert_eq!(r.unwrap().city, "Asahi");
}

#[test]
fn a_failed_fetch_keeps_the_place_asked_for() {
    let r = pinned_after(Some(location("Mitte")), &Err("offline".to_string()));
    assert_eq!(r.unwrap().city, "Mitte");
    assert!(pinned_after(None, &Err("offline".to_string())).is_none());
}

#[test]
fn a_pick_changes_the_place_and_a_refresh_does_not() {
    let r = after_message(Some(location("Asahi")), Fetch::Now);
    assert_eq!(r.unwrap().city, "Asahi");
    let r = after_message(Some(location("Asahi")), Fetch::From(location("Mitte")));
    assert_eq!(r.unwrap().city, "Mitte");
    assert_eq!(REFRESH_INTERVAL_SECS, 600);
}
