use tenki::ui::bigfont::{glyph, glyph_advance, ink_bounds, optical_center_quarters, GLYPH_COLS};

#[test]
fn every_glyph_row_has_expected_width() {
    for c in "0123456789°:-ACDEFGHILNORSTUVWYZ".chars() {
        for row in glyph(c) {
            assert_eq!(row.len(), GLYPH_COLS, "glyph '{c}' row width mismatch");
        }
    }
}

#[test]
fn unknown_char_is_blank() {
    for row in glyph('#') {
        assert!(row.chars().all(|p| p == '.'));
    }
}

#[test]
fn letters_look_the_same_in_either_case() {
    assert_eq!(glyph('a'), glyph('A'));
    assert_eq!(glyph('z'), glyph('Z'));
}

#[test]
fn optical_center_favours_the_numerals_over_the_degree_sign() {
    let center = |t: &str| optical_center_quarters(t).map(|q| q as f64 / 4.0);
    // "21°" inks columns 0..16, so it measures centered on 8.0, but the eye
    // reads that as left-shifted, so the degree sign only counts half.
    assert_eq!(ink_bounds("21°"), Some((0, 16)));
    assert_eq!(center("21°"), Some(6.5));
    // With no degree sign there is nothing to discount.
    assert_eq!(center("21"), Some(5.0));
    // A lone degree sign has no numerals to favour, so it just centers on its ink.
    assert_eq!(center("°"), Some(2.0));
    assert_eq!(center(""), None);
}

#[test]
fn ink_bounds_trim_trailing_gap_and_empty_columns() {
    // "21°": '2' inks from column 0, '°' ends at column 3 of the third cell.
    assert_eq!(ink_bounds("21°"), Some((0, 2 * glyph_advance() + 4)));
    // '1' is inset on both sides, so a lone digit reports its own narrow span.
    assert_eq!(ink_bounds("1"), Some((1, 4)));
    assert_eq!(ink_bounds(""), None);
    assert_eq!(ink_bounds(" "), None);
}
