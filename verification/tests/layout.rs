use tenki::ui::bigfont::{glyph, glyph_advance};
use tenki::ui::canvas::hero_layout;
use tenki::ui::detail::{centered_rect, Rect, PANEL_HEIGHT, PANEL_WIDTH};

#[test]
fn panel_is_centred_in_a_large_area() {
    let area = Rect::new(0, 0, 100, 30);
    let r = centered_rect(PANEL_WIDTH, PANEL_HEIGHT, area);
    assert_eq!(r.width, PANEL_WIDTH);
    assert_eq!(r.height, PANEL_HEIGHT);
    assert_eq!(r.x + r.width / 2, 50);
}

#[test]
fn panel_clamps_to_a_small_area() {
    let area = Rect::new(0, 0, 30, 10);
    let r = centered_rect(PANEL_WIDTH, PANEL_HEIGHT, area);
    assert_eq!((r.width, r.height), (30, 10));
    assert_eq!((r.x, r.y), (0, 0));
}

/// The columns the hero's blocks land on, as the canvas paints them.
fn hero_columns(width: u16, height: u16, text: &str) -> (usize, usize) {
    let area = Rect::new(0, 0, width, height);
    let h = hero_layout(area, text, "☀ CLEAR");
    let (mut first, mut last) = (usize::MAX, 0usize);
    for (ci, ch) in text.chars().enumerate() {
        let glyph_x = h.start_x + (ci as u16) * (glyph_advance() as u16) * h.scale;
        for line in glyph(ch) {
            for (col, pixel) in line.chars().enumerate() {
                if pixel != '#' {
                    continue;
                }
                for sx in 0..h.scale {
                    let x = glyph_x + (col as u16) * h.scale + sx;
                    if x >= width {
                        continue;
                    }
                    first = first.min(x as usize);
                    last = last.max(x as usize + 1);
                }
            }
        }
    }
    (first, last)
}

#[test]
fn hero_block_sits_optically_centered() {
    // The canvas gets the terminal less the status bar row.
    for width in [40u16, 60, 80, 100, 240] {
        let (first, last) = hero_columns(width, 29, "18°");
        assert!(first != usize::MAX, "no hero glyphs at width {width}");
        let (left_gap, right_gap) = (first, width as usize - last);
        assert!(left_gap > right_gap, "hero not nudged right at width {width}: {left_gap} left vs {right_gap} right");
        assert!(right_gap >= left_gap / 2, "hero nudged too far right at width {width}: {left_gap} left vs {right_gap} right");
    }
}

#[test]
fn the_hero_scales_down_to_fit() {
    let area = Rect::new(0, 0, 100, 29);
    assert_eq!(hero_layout(area, "18°", "☀ CLEAR").scale, 2);
    let big = Rect::new(0, 0, 240, 69);
    let h = hero_layout(big, "18°", "☀ CLEAR");
    assert_eq!(h.scale, 4);
    assert_eq!(h.total_height, 20);
    assert_eq!(h.label_row, h.start_y + 21);
    assert_eq!(h.label_x, (240 - 7) / 2);
    let tiny = Rect::new(0, 0, 10, 4);
    assert_eq!(hero_layout(tiny, "18°", "☀ CLEAR").scale, 1);
}

#[test]
fn the_panel_title_names_the_place() {
    let mut l = tenki::net::model::Location {
        city: "Asahi".to_string(),
        region: "Chiba".to_string(),
        latitude_bits: 0,
        longitude_bits: 0,
    };
    assert_eq!(tenki::ui::detail::panel_title(&l), " Asahi, Chiba ");
    l.region = String::new();
    assert_eq!(tenki::ui::detail::panel_title(&l), " Asahi ");
}

#[test]
fn the_hero_is_placed_by_its_optical_centre() {
    // "18°" inks font-columns 1..16 and 1..11 without the degree sign: four times its
    // optical centre is 29, so at scale two it starts (2 * 100 - 58) / 4 = 35 in.
    let h = hero_layout(Rect::new(0, 0, 100, 29), "18°", "☀ CLEAR");
    assert_eq!(h.scale, 2);
    assert_eq!(h.start_x, 35);
    assert_eq!(h.ink_left, 37);
    assert_eq!(h.ink_width, 30);
    assert_eq!((h.plate_left, h.plate_right), (35, 69));
    // Without ink the advance box is centred.
    let blank = hero_layout(Rect::new(0, 0, 100, 29), "  ", "x");
    assert_eq!(blank.start_x, 38);
    assert_eq!(blank.ink_width, 24);
}
