use tenki::net::geocode::{
    coordinate_fields, encode, geocoder_complaint, non_empty, plan_search, reply_problem, search_url, Lookup,
};
use tenki::net::geolocation::{both_failed, location_from_ip_api, location_from_ipwho};
use tenki::net::model::Place;

#[test]
fn queries_are_percent_encoded() {
    assert_eq!(encode("berlin mitte"), "berlin%20mitte");
    assert_eq!(encode("sao paulo & co"), "sao%20paulo%20%26%20co");
    assert_eq!(encode("K\u{f6}ln"), "K%C3%B6ln");
}

#[test]
fn unreserved_characters_pass_through() {
    assert_eq!(encode("Az09-_.~"), "Az09-_.~");
    assert_eq!(encode("/?"), "%2F%3F");
}

#[test]
fn the_search_url_asks_for_eight_matches() {
    assert_eq!(
        search_url("berlin mitte"),
        "https://geocoding-api.open-meteo.com/v1/search?name=berlin%20mitte&count=8&language=en&format=json"
    );
}

fn place(name: &str, admin1: Option<&str>, country: Option<&str>, code: Option<&str>) -> Place {
    Place::from_geocode(
        name.to_string(),
        52.5f64.to_bits(),
        13.4f64.to_bits(),
        admin1.map(|s| s.to_string()),
        country.map(|s| s.to_string()),
        code.map(|s| s.to_string()),
    )
}

#[test]
fn a_match_is_labelled_name_region_country() {
    let p = place("Mitte", Some("Berlin"), Some("Germany"), Some("DE"));
    assert_eq!(p.label, "Mitte, Berlin, Germany");
    assert_eq!(p.location.city, "Mitte");
    assert_eq!(p.location.region, "Berlin");
    assert_eq!(f64::from_bits(p.location.latitude_bits), 52.5);
}

#[test]
fn repeated_name_and_region_collapse_in_the_label() {
    let p = Place::from_geocode(
        "Berlin".to_string(),
        52.5f64.to_bits(),
        13.4f64.to_bits(),
        Some("Berlin".to_string()),
        Some("Germany".to_string()),
        None,
    );
    assert_eq!(p.label, "Berlin, Germany");
}

#[test]
fn missing_region_falls_back_to_the_country() {
    let p = Place::from_geocode(
        "Monaco".to_string(),
        43.7f64.to_bits(),
        7.4f64.to_bits(),
        None,
        Some("Monaco".to_string()),
        Some("MC".to_string()),
    );
    assert_eq!(p.location.region, "MC");
    // City and country coincide here, so the label says it once.
    assert_eq!(p.label, "Monaco");
}

#[test]
fn blank_fields_count_as_missing() {
    let p = place("Nowhere", Some("  "), Some(""), None);
    assert_eq!(p.label, "Nowhere");
    assert_eq!(p.location.region, "");
    assert_eq!(non_empty(Some(" \t".to_string())), None);
    assert_eq!(non_empty(Some(" x ".to_string())), Some(" x ".to_string()));
    assert_eq!(non_empty(None), None);
}

/// The picker's coordinate column: both halves to two decimals.
fn coordinate_column(lat: &str, lon: &str) -> String {
    format!("{:.2},{:.2}", lat.parse::<f64>().unwrap(), lon.parse::<f64>().unwrap())
}

#[test]
fn coordinates_are_accepted_in_several_shapes() {
    for q in ["52.52,13.41", "52.52, 13.41", "52.52 13.41", "  52.52 , 13.41 "] {
        let (lat, lon) = coordinate_fields(q).unwrap_or_else(|| panic!("rejected {q:?}"));
        assert_eq!(coordinate_column(&lat, &lon), "52.52,13.41");
    }
}

#[test]
fn typed_coordinates_are_kept_as_typed() {
    for q in ["52.52,13.41", "52.52, 13.41", "52.52 13.41", "  52.52 , 13.41 "] {
        let (lat, lon) = coordinate_fields(q).unwrap();
        assert_eq!((lat.as_str(), lon.as_str()), ("52.52", "13.41"));
    }
    let (lat, lon) = coordinate_fields("52.520030\t13.404890").unwrap();
    assert_eq!((lat.as_str(), lon.as_str()), ("52.520030", "13.404890"));
}

const SAMPLE: &str = r#"{
    "results": [
        {"id": 1, "name": "Mitte", "latitude": 52.52003, "longitude": 13.40489,
         "country_code": "DE", "admin1": "Berlin", "country": "Germany"},
        {"id": 2, "name": "Hamburg-Mitte", "latitude": 53.55073, "longitude": 9.99302,
         "country_code": "DE", "admin1": "Hamburg", "country": "Germany"}
    ],
    "generationtime_ms": 0.7
}"#;

/// The places of a geocoder reply, read field by field.
fn places_of(body: &str) -> Vec<Place> {
    let v: serde_json::Value = serde_json::from_str(body).unwrap();
    let text = |r: &serde_json::Value, k: &str| r.get(k).and_then(|x| x.as_str()).map(|s| s.to_string());
    v["results"]
        .as_array()
        .map(|rs| {
            rs.iter()
                .map(|r| {
                    Place::from_geocode(
                        text(r, "name").unwrap(),
                        r["latitude"].as_f64().unwrap().to_bits(),
                        r["longitude"].as_f64().unwrap().to_bits(),
                        text(r, "admin1"),
                        text(r, "country"),
                        text(r, "country_code"),
                    )
                })
                .collect()
        })
        .unwrap_or_default()
}

#[test]
fn parses_matches_into_places() {
    let places = places_of(SAMPLE);
    assert_eq!(places.len(), 2);
    assert_eq!(places[0].label, "Mitte, Berlin, Germany");
    assert_eq!(places[0].location.city, "Mitte");
    assert_eq!(places[0].location.region, "Berlin");
    let lat = f64::from_bits(places[0].location.latitude_bits);
    let lon = f64::from_bits(places[0].location.longitude_bits);
    assert_eq!(format!("{lat:.2},{lon:.2}"), "52.52,13.40");
}

#[test]
fn negative_and_integer_coordinates_work() {
    let (lat, lon) = coordinate_fields("-33, 151").unwrap();
    let place = (lat.parse::<f64>().unwrap(), lon.parse::<f64>().unwrap());
    assert_eq!(place, (-33.0, 151.0));
}

#[test]
fn a_postcode_or_place_name_is_not_coordinates() {
    for q in ["10115", "berlin", "Kings Cross, London", "52.52", "1 2 3"] {
        assert!(coordinate_fields(q).is_none(), "{q:?} was read as coordinates");
    }
}

#[test]
fn number_spellings_follow_the_float_grammar() {
    assert!(coordinate_fields("1e3, -2.5E-1").is_some());
    assert!(coordinate_fields(".5, 5.").is_some());
    assert!(coordinate_fields("inf, NaN").is_some());
    assert!(coordinate_fields("1e, 2").is_none());
    assert!(coordinate_fields("., 2").is_none());
    assert!(coordinate_fields("1.2.3, 4").is_none());
}

#[test]
fn a_reported_error_becomes_its_reason() {
    assert_eq!(
        geocoder_complaint(Some(true), Some("Parameter name is empty".to_string())),
        Some("Parameter name is empty".to_string())
    );
    assert_eq!(
        geocoder_complaint(Some(true), None),
        Some("the geocoder rejected that search".to_string())
    );
    assert_eq!(geocoder_complaint(Some(false), Some("x".to_string())), None);
    assert_eq!(geocoder_complaint(None, None), None);
}

#[test]
fn a_bad_status_is_a_problem_unless_the_geocoder_complained() {
    assert_eq!(reply_problem(None, 200), None);
    assert_eq!(reply_problem(None, 502), Some("geocoder returned HTTP 502".to_string()));
    assert_eq!(
        reply_problem(Some("bad name".to_string()), 400),
        Some("bad name".to_string())
    );
}

#[test]
fn ip_services_report_a_location_or_why_not() {
    let l = location_from_ipwho(Some(true), None, None, Some(1.0f64.to_bits()), Some(2.0f64.to_bits())).unwrap();
    assert_eq!(l.city, "Unknown");
    assert_eq!(l.region, "");
    assert_eq!(
        location_from_ipwho(Some(false), None, None, Some(0), Some(0)).unwrap_err(),
        "ipwho.is reported failure"
    );
    assert_eq!(
        location_from_ipwho(None, None, None, None, Some(0)).unwrap_err(),
        "ipwho.is missing latitude"
    );
    assert_eq!(
        location_from_ip_api(Some("fail".to_string()), None, None, Some(0), Some(0)).unwrap_err(),
        "ip-api.com reported failure"
    );
    assert_eq!(
        location_from_ip_api(Some("success".to_string()), Some("Asahi".to_string()), None, Some(0), None)
            .unwrap_err(),
        "ip-api.com missing lon"
    );
    assert_eq!(both_failed("a", "b"), "a; fallback also failed: b");
}

#[test]
fn a_blank_query_asks_nobody() {
    assert!(matches!(plan_search("   "), Lookup::Nothing));
    assert!(matches!(plan_search(""), Lookup::Nothing));
}

#[test]
fn typed_coordinates_need_no_lookup() {
    match plan_search("  52.52 , 13.41 ") {
        Lookup::Coordinates { latitude, longitude, url } => {
            assert_eq!((latitude.as_str(), longitude.as_str()), ("52.52", "13.41"));
            assert_eq!(url, search_url("52.52 , 13.41"));
        }
        other => panic!("not read as coordinates: {other:?}"),
    }
}

#[test]
fn a_name_goes_to_the_geocoder_trimmed() {
    match plan_search("  berlin mitte ") {
        Lookup::Geocoder(url) => assert_eq!(
            url,
            "https://geocoding-api.open-meteo.com/v1/search?name=berlin%20mitte&count=8&language=en&format=json"
        ),
        other => panic!("not a lookup: {other:?}"),
    }
}
