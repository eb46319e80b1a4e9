use tenki::app::{App, Key, KeyCode, Request, SearchStatus, Update};
use tenki::net::model::{Condition, Location, Place, WeatherData};

fn location(city: &str, region: &str, lat: f64, lon: f64) -> Location {
    Location {
        city: city.into(),
        region: region.into(),
        latitude_bits: lat.to_bits(),
        longitude_bits: lon.to_bits(),
    }
}

fn sample(condition: Condition) -> WeatherData {
    WeatherData {
        location: location("Asahi", "Chiba", 35.72, 140.65),
        condition,
        is_day: true,
        temperature_c_bits: 18.4f64.to_bits(),
        feels_like_c_bits: 17.1f64.to_bits(),
        humidity_pct_bits: 72.0f64.to_bits(),
        wind_speed_kmh_bits: 14.0f64.to_bits(),
        wind_direction_deg_bits: 225.0f64.to_bits(),
        pressure_hpa_bits: 1013.0f64.to_bits(),
        uv_index_bits: 4.2f64.to_bits(),
        precipitation_probability_pct_bits: 65.0f64.to_bits(),
        sunrise: "05:21".into(),
        sunset: "18:04".into(),
    }
}

fn place(city: &str, region: &str, lat: f64, lon: f64) -> Place {
    Place {
        location: location(city, region, lat, lon),
        label: format!("{city}, {region}"),
    }
}

fn key(c: char) -> Key {
    Key::plain(KeyCode::Char(c))
}

/// An app with a reading on screen and the picker open on two results.
fn app_with_results() -> App {
    let mut app = App::new();
    app.apply_update(Update::Weather(Ok(sample(Condition::Clear))), 0);
    assert!(app.handle_key(key('l')).is_none());
    for c in "berlin".chars() {
        assert!(app.handle_key(key(c)).is_none());
    }
    match app.handle_key(Key::plain(KeyCode::Enter)) {
        Some(Request::Search(q)) => assert_eq!(q, "berlin"),
        other => panic!("expected a search request, got {other:?}"),
    }
    app.apply_update(
        Update::Search(Ok(vec![
            place("Mitte", "Berlin", 52.52, 13.40),
            place("Hamburg-Mitte", "Hamburg", 53.55, 9.99),
        ])),
        0,
    );
    app
}

#[test]
fn status_line_never_overflows_a_narrow_terminal() {
    let mut app = App::new();
    app.apply_update(Update::Weather(Ok(sample(Condition::Clear))), 0);
    for width in [30u16, 46, 60, 69, 70, 100] {
        let status = app.status_line(width, 0);
        assert!(
            status.chars().count() <= width as usize,
            "status line overflows at width {width}: {status:?}"
        );
        assert!(status.contains("Asahi"), "location missing at width {width}");
    }
}

/// Hints are dropped whole, never cut in half, and the location always stays.
#[test]
fn status_line_keeps_the_location_hint_until_space_runs_out() {
    let mut app = App::new();
    app.apply_update(Update::Weather(Ok(sample(Condition::Clear))), 0);

    for width in 1u16..=120 {
        let line = app.status_line(width, 0);
        assert!(
            line.chars().count() <= width as usize,
            "status line overflows at width {width}: {line:?}"
        );
        if width >= 46 {
            assert!(line.contains("[l]"), "no location hint at width {width}: {line:?}");
        }
    }
    assert!(app.status_line(100, 0).contains("[l] location"));
}

#[test]
fn the_status_line_reports_the_age_of_the_reading() {
    let mut app = App::new();
    assert_eq!(app.status_line(200, 0), "locating...  ·  not yet updated  ·  [d] details  [l] location  [r] refresh  [q] quit");
    app.apply_update(Update::Weather(Ok(sample(Condition::Clear))), 1_000);
    assert_eq!(app.freshness(1_000), "updated 0s ago");
    assert_eq!(app.freshness(60_999), "updated 59s ago");
    assert_eq!(app.freshness(61_000), "updated 1m ago");
    assert_eq!(app.status_line(100, 1_000), "Asahi, Chiba  ·  updated 0s ago  ·  [d] details  [l] location  [r] refresh  [q] quit");
    assert_eq!(app.status_line(8, 1_000), "Asahi");
    assert_eq!(app.status_line(3, 1_000), "As…");
}

#[test]
fn toggling_details_and_quitting_via_keys() {
    let mut app = App::new();
    assert!(!app.show_details);
    app.handle_key(key('d'));
    assert!(app.show_details);
    app.handle_key(key('d'));
    assert!(!app.show_details);

    app.handle_key(key('q'));
    assert!(app.should_quit);
}

#[test]
fn ctrl_c_quits_but_plain_c_does_not() {
    let mut app = App::new();
    app.handle_key(key('c'));
    assert!(!app.should_quit);
    app.handle_key(Key::with_ctrl(KeyCode::Char('c')));
    assert!(app.should_quit);
}

#[test]
fn r_asks_for_a_refresh() {
    let mut app = App::new();
    assert!(matches!(app.handle_key(key('r')), Some(Request::Refresh)));
    assert!(app.handle_key(key('x')).is_none());
    assert!(app.handle_key(Key::plain(KeyCode::Esc)).is_none());
    assert!(app.should_quit);
}

#[test]
fn failed_refresh_keeps_the_last_good_reading() {
    let mut app = App::new();
    app.apply_update(Update::Weather(Ok(sample(Condition::Rain))), 0);
    app.apply_update(Update::Weather(Err("network down".into())), 0);
    assert!(app.weather.is_some(), "last good weather was discarded");
    assert_eq!(app.error.as_deref(), Some("network down"));
}

#[test]
fn l_opens_the_picker_and_esc_closes_it() {
    let mut app = App::new();
    app.handle_key(key('l'));
    assert!(app.search.is_some());
    app.handle_key(Key::plain(KeyCode::Esc));
    assert!(app.search.is_none());
    assert!(!app.should_quit, "esc closed the picker and quit the app");
}

/// With the picker open the command keys are just letters.
#[test]
fn typing_in_the_picker_does_not_trigger_commands() {
    let mut app = App::new();
    app.handle_key(key('l'));
    let mut sent = Vec::new();
    for c in "quedri".chars() {
        sent.extend(app.handle_key(key(c)));
    }
    assert_eq!(app.search.as_ref().unwrap().query, "quedri");
    assert!(!app.should_quit);
    assert!(!app.show_details);
    assert!(sent.is_empty(), "a key press leaked out as a request");
}

#[test]
fn editing_keys_work_on_the_query() {
    let mut app = App::new();
    app.handle_key(key('l'));
    for c in "berlin mitte".chars() {
        app.handle_key(key(c));
    }
    app.handle_key(Key::plain(KeyCode::Backspace));
    assert_eq!(app.search.as_ref().unwrap().query, "berlin mitt");
    app.handle_key(Key::with_ctrl(KeyCode::Char('w')));
    assert_eq!(app.search.as_ref().unwrap().query, "berlin ");
    app.handle_key(Key::with_ctrl(KeyCode::Char('u')));
    assert_eq!(app.search.as_ref().unwrap().query, "");
}

#[test]
fn erasing_a_word_survives_multi_byte_whitespace() {
    let mut app = App::new();
    app.handle_key(key('l'));
    // A non-breaking space, as pasted from a web page.
    for c in "berlin\u{a0}mitte".chars() {
        app.handle_key(key(c));
    }
    app.handle_key(Key::with_ctrl(KeyCode::Char('w')));
    assert_eq!(app.search.as_ref().unwrap().query, "berlin\u{a0}");
}

#[test]
fn erasing_a_word_drops_trailing_spaces_first() {
    let mut app = App::new();
    app.handle_key(key('l'));
    for c in "one two  ".chars() {
        app.handle_key(key(c));
    }
    app.handle_key(Key::with_ctrl(KeyCode::Char('w')));
    assert_eq!(app.search.as_ref().unwrap().query, "one ");
    app.handle_key(Key::with_ctrl(KeyCode::Char('w')));
    assert_eq!(app.search.as_ref().unwrap().query, "");
    app.handle_key(Key::plain(KeyCode::Backspace));
    assert_eq!(app.search.as_ref().unwrap().query, "");
}

#[test]
fn a_location_that_will_not_load_says_so_instead_of_silently_reverting() {
    let mut app = app_with_results();
    app.handle_key(Key::plain(KeyCode::Enter));
    assert!(app.pending_location.is_some());
    app.apply_update(Update::Weather(Err("weather request failed".into())), 0);
    assert!(app.pending_location.is_none());
    let status = app.status_line(100, 0);
    assert!(status.contains("could not load that location"), "no explanation: {status:?}");
    assert!(status.contains("Asahi"), "lost the last good location: {status:?}");
}

#[test]
fn enter_searches_then_picks() {
    let mut app = app_with_results();
    let search = app.search.as_ref().unwrap();
    assert_eq!(search.status, SearchStatus::Typing);
    assert_eq!(search.results.len(), 2);

    app.handle_key(Key::plain(KeyCode::Down));
    match app.handle_key(Key::plain(KeyCode::Enter)).expect("a use-location request") {
        Request::Use(loc) => {
            assert_eq!(loc.city, "Hamburg-Mitte");
            assert_eq!(f64::from_bits(loc.latitude_bits), 53.55);
        }
        other => panic!("unexpected request: {other:?}"),
    }
    assert!(app.search.is_none(), "picker stayed open after picking");
    assert_eq!(app.pending_location.as_ref().unwrap().city, "Hamburg-Mitte");
}

/// Editing after a search makes Enter search again rather than pick a stale row.
#[test]
fn editing_the_query_re_arms_the_search() {
    let mut app = app_with_results();
    app.handle_key(key('x'));
    match app.handle_key(Key::plain(KeyCode::Enter)).expect("a second search request") {
        Request::Search(q) => assert_eq!(q, "berlinx"),
        other => panic!("unexpected request: {other:?}"),
    }
    assert_eq!(app.search.as_ref().unwrap().status, SearchStatus::Searching);
}

#[test]
fn selection_wraps_in_both_directions() {
    let mut app = app_with_results();
    assert_eq!(app.search.as_ref().unwrap().selected, 0);
    app.handle_key(Key::plain(KeyCode::Up));
    assert_eq!(app.search.as_ref().unwrap().selected, 1);
    app.handle_key(Key::plain(KeyCode::Down));
    assert_eq!(app.search.as_ref().unwrap().selected, 0);
    app.handle_key(Key::plain(KeyCode::BackTab));
    assert_eq!(app.search.as_ref().unwrap().selected, 1);
    app.handle_key(Key::plain(KeyCode::Tab));
    assert_eq!(app.search.as_ref().unwrap().selected, 0);
}

#[test]
fn an_empty_query_is_not_searched() {
    let mut app = App::new();
    app.handle_key(key('l'));
    app.handle_key(key(' '));
    assert!(app.handle_key(Key::plain(KeyCode::Enter)).is_none(), "blank query hit the geocoder");
    assert!(app.search.is_some());
}

#[test]
fn a_search_with_no_matches_says_so() {
    let mut app = app_with_results();
    app.apply_update(Update::Search(Ok(Vec::new())), 0);
    let search = app.search.as_ref().unwrap();
    assert_eq!(search.status, SearchStatus::NoMatches);
    assert!(search.results.is_empty());

    app.handle_key(Key::plain(KeyCode::Enter));
    assert!(app.search.is_some(), "enter closed the picker with nothing picked");
}

#[test]
fn a_failed_search_leaves_the_picker_usable() {
    let mut app = app_with_results();
    app.apply_update(Update::Search(Err("geocoder request failed".into())), 0);
    assert_eq!(
        app.search.as_ref().unwrap().status,
        SearchStatus::Failed("geocoder request failed".into())
    );
    let (row, _) = tenki::ui::search::status_line(app.search.as_ref().unwrap(), 54);
    assert!(row.contains("geocoder request failed"), "error not shown: {row}");
}

/// Results for a picker the user already closed must not reopen it.
#[test]
fn late_results_are_dropped_once_the_picker_is_closed() {
    let mut app = app_with_results();
    app.handle_key(Key::plain(KeyCode::Esc));
    app.apply_update(Update::Search(Ok(vec![place("Mitte", "Berlin", 52.5, 13.4)])), 0);
    assert!(app.search.is_none());
}

#[test]
fn the_picked_place_shows_in_the_status_bar_before_its_weather_arrives() {
    let mut app = app_with_results();
    app.handle_key(Key::plain(KeyCode::Enter));
    let status = app.status_line(100, 0);
    assert!(status.contains("Mitte"), "picked place missing: {status:?}");
    assert!(status.contains("updating"), "no pending marker: {status:?}");

    let mut arrived = sample(Condition::Clear);
    arrived.location = place("Mitte", "Berlin", 52.52, 13.40).location;
    app.apply_update(Update::Weather(Ok(arrived)), 0);
    assert!(app.pending_location.is_none());
    assert!(app.status_line(100, 0).contains("Mitte, Berlin"));
}

#[test]
fn a_notice_replaces_the_freshness_segment_for_a_while() {
    let mut app = App::new();
    app.apply_update(Update::Weather(Ok(sample(Condition::Clear))), 0);
    app.apply_update(Update::Notice("could not save location: read-only".into()), 0);
    assert!(app.status_line(100, 0).contains("could not save location"));
    assert!(app.status_line(100, 5_999).contains("could not save location"));
    assert!(!app.status_line(100, 6_000).contains("could not save location"));
}

#[test]
fn the_picker_draws_the_query_and_its_results() {
    let app = app_with_results();
    let search = app.search.as_ref().unwrap();
    let prompt: String = tenki::ui::search::prompt_line(&search.query, 54).concat();
    assert!(prompt.contains("berlin"), "query missing: {prompt}");
    let rows: Vec<String> = search
        .results
        .iter()
        .enumerate()
        .map(|(i, p)| tenki::ui::search::result_line(&p.label, "52.52,13.40", i == search.selected, 54).concat())
        .collect();
    assert!(rows[0].contains("Mitte, Berlin"), "first result missing");
    assert!(rows[1].contains("Hamburg-Mitte, Hamburg"), "second result missing");
    assert!(rows[0].contains("52.52,13.40"), "coordinates missing");
    assert!(tenki::ui::search::hint(search, 56).contains("⏎ use"), "no key hints");
}

#[test]
fn the_waiting_screen_explains_itself() {
    let mut app = App::new();
    assert_eq!(app.waiting_message(), "fetching local weather...");
    app.apply_update(Update::Weather(Err("offline".into())), 0);
    assert_eq!(
        app.waiting_message(),
        "could not load weather yet: offline\n(retrying automatically — press r to retry now, l to pick a location)"
    );
}
