use tenki::app::{Search, SearchStatus};
use tenki::net::model::{Location, Place};
use tenki::ui::search::{hint, prompt_line, result_line, status_line, truncate};
use tenki::ui::theme::{CYAN, MUTED_TEXT, PEACH};

#[test]
fn truncate_leaves_short_text_alone() {
    assert_eq!(truncate("Berlin", 10), "Berlin");
    assert_eq!(truncate("Berlin", 6), "Berlin");
}

#[test]
fn truncate_marks_what_it_cut() {
    assert_eq!(truncate("Berlin", 5), "Berl…");
    assert_eq!(truncate("Berlin", 1), "…");
    assert_eq!(truncate("Berlin", 0), "");
}

fn width(spans: &[String]) -> usize {
    spans.iter().map(|s| s.chars().count()).sum()
}

/// What `Place::from_coordinates(52.5200, 13.4048)` shows: its label and its coordinates.
const EXACT_LABEL: &str = "52.5200, 13.4048  (exact coordinates)";
const EXACT_COORDS: &str = "52.52,13.40";

#[test]
fn a_result_row_never_exceeds_the_inner_width() {
    for inner in 0..60usize {
        let w = width(&result_line(EXACT_LABEL, EXACT_COORDS, true, inner));
        assert!(w <= inner, "row of {w} overflows inner width {inner}");
    }
}

#[test]
fn a_long_label_is_truncated_rather_than_wrapped() {
    let row: String = result_line(
        "A very long district name, In Some Region, In Some Country",
        "1.00,2.00",
        false,
        40,
    )
    .concat();
    assert!(row.chars().count() <= 40, "row too wide: {row:?}");
    assert!(row.contains('…'), "no truncation marker: {row:?}");
}

#[test]
fn the_prompt_never_exceeds_the_inner_width() {
    for inner in 0..60usize {
        let w = width(&prompt_line("berlin mitte", inner));
        assert!(w <= inner, "prompt of {w} overflows inner width {inner}");
    }
}

#[test]
fn the_prompt_scrolls_to_keep_the_caret_visible() {
    let long = "a".repeat(200);
    let line = prompt_line(&long, 30);
    let w = width(&line);
    assert!(w <= 30, "prompt of {w} overflows 30");
    assert!(line.last().unwrap().contains('▌'));
}

#[test]
fn a_result_row_lines_up_its_coordinates() {
    let row = result_line("Mitte, Berlin, Germany", "52.52,13.40", true, 54);
    assert_eq!(row[0], " ▸ ");
    assert_eq!(row[1], "Mitte, Berlin, Germany");
    assert_eq!(row[3], "52.52,13.40");
    assert_eq!(width(&row), 53);
    let narrow = result_line("Mitte, Berlin, Germany", "52.52,13.40", false, 20);
    assert_eq!(narrow.len(), 2);
    assert_eq!(narrow[0], "   ");
    assert!(prompt_line("x", 4).is_empty());
}

fn search(status: SearchStatus, results: usize) -> Search {
    Search {
        query: "berlin".to_string(),
        submitted: "berlin".to_string(),
        results: (0..results)
            .map(|_| Place {
                location: Location {
                    city: "Mitte".to_string(),
                    region: "Berlin".to_string(),
                    latitude_bits: 0,
                    longitude_bits: 0,
                },
                label: "Mitte, Berlin".to_string(),
            })
            .collect(),
        selected: 0,
        status,
    }
}

#[test]
fn the_status_row_says_where_the_search_stands() {
    assert_eq!(
        status_line(&search(SearchStatus::Typing, 0), 54),
        ("  type a city, a postcode, or \"lat, lon\"".to_string(), MUTED_TEXT)
    );
    assert_eq!(status_line(&search(SearchStatus::Typing, 3), 54), ("  3 matches".to_string(), MUTED_TEXT));
    assert_eq!(status_line(&search(SearchStatus::Searching, 0), 54), ("  searching…".to_string(), CYAN));
    assert_eq!(
        status_line(&search(SearchStatus::NoMatches, 0), 54),
        ("  nothing found for \"berlin\"".to_string(), PEACH)
    );
    assert_eq!(
        status_line(&search(SearchStatus::Failed("geocoder request failed".to_string()), 0), 54),
        ("  geocoder request failed".to_string(), PEACH)
    );
    assert_eq!(status_line(&search(SearchStatus::Searching, 0), 5).0, "  se…");
}

#[test]
fn hints_shrink_in_a_narrow_popup() {
    assert_eq!(hint(&search(SearchStatus::Typing, 0), 56), " ⏎ search · esc cancel ");
    assert_eq!(hint(&search(SearchStatus::Typing, 0), 30), " ⏎ search · esc ");
    assert_eq!(hint(&search(SearchStatus::Typing, 2), 56), " ↑↓ select · ⏎ use · esc cancel ");
    assert_eq!(hint(&search(SearchStatus::Typing, 2), 43), " ↑↓ · ⏎ use · esc ");
}
