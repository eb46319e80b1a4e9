use tenki::config::{number, parse, quote, render, unquote, SavedLocation};

fn sample() -> SavedLocation {
    SavedLocation {
        city: "Mitte".into(),
        region: "Berlin".into(),
        latitude: format!("{}", 52.52003f64),
        longitude: format!("{}", 13.40489f64),
    }
}

fn degrees(text: &str) -> f64 {
    text.parse().unwrap()
}

#[test]
fn round_trips_a_location() {
    let parsed = parse(&render(&sample())).unwrap();
    assert_eq!(parsed.city, "Mitte");
    assert_eq!(parsed.region, "Berlin");
    assert_eq!(degrees(&parsed.latitude), 52.52003);
    assert_eq!(degrees(&parsed.longitude), 13.40489);
}

#[test]
fn round_trips_names_containing_quotes_and_backslashes() {
    let awkward = SavedLocation {
        city: "Mar del \"Plata\"\\".into(),
        ..sample()
    };
    assert_eq!(parse(&render(&awkward)).unwrap().city, "Mar del \"Plata\"\\");
}

#[test]
fn accepts_a_hand_written_file() {
    let parsed = parse(
        "# my place\n[location]\n  latitude = 35.72  # roughly\n  longitude=140.65\n  city = \"Asahi\"\n",
    )
    .unwrap();
    assert_eq!((degrees(&parsed.latitude), degrees(&parsed.longitude)), (35.72, 140.65));
    assert_eq!(parsed.city, "Asahi");
    assert_eq!(parsed.region, "");
}

#[test]
fn a_file_without_coordinates_is_not_a_location() {
    assert!(parse("city = \"Asahi\"\n").is_none());
    assert!(parse("latitude = 35.72\n").is_none());
    assert!(parse("").is_none());
}

#[test]
fn an_unnamed_location_still_loads() {
    let parsed = parse("latitude = 1.0\nlongitude = 2.0\n").unwrap();
    assert_eq!(parsed.city, "Saved location");
}

#[test]
fn the_file_has_a_header_and_four_keys() {
    assert_eq!(
        render(&sample()),
        "# tenki — the location you picked with [l].\n\
         # Edit the coordinates by hand, or delete this file\n\
         # (or run `tenki --forget`) to go back to IP detection.\n\
         city = \"Mitte\"\nregion = \"Berlin\"\nlatitude = 52.52003\nlongitude = 13.40489\n"
    );
}

#[test]
fn values_are_quoted_and_read_back() {
    assert_eq!(quote("a\"b\\c"), "\"a\\\"b\\\\c\"");
    assert_eq!(unquote("  \"a\\\"b\\\\c\"  "), "a\"b\\c");
    assert_eq!(unquote("plain"), "plain");
    assert_eq!(unquote("\""), "\"");
    assert_eq!(unquote("\"x\\\""), "x\\");
}

#[test]
fn numbers_ignore_comments_and_need_to_read_as_numbers() {
    assert_eq!(number(" 35.72  # roughly"), Some("35.72".to_string()));
    assert_eq!(number(" -1e3"), Some("-1e3".to_string()));
    assert_eq!(number("north"), None);
    assert_eq!(number("# nothing"), None);
}

#[test]
fn a_later_bad_number_wins_over_an_earlier_good_one() {
    assert!(parse("latitude = 1\nlongitude = 2\nlatitude = x\n").is_none());
    let p = parse("latitude = x\nlatitude = 3\nlongitude = 2\r\nregion = \"R\"").unwrap();
    assert_eq!(p.latitude, "3");
    assert_eq!(p.region, "R");
}
