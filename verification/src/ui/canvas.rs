//! The full-screen picture: which colours and icon a condition gets, and where the big
//! temperature and its label go.
use vstd::prelude::*;

use crate::net::model::Condition;
use crate::text::char_count;
use crate::ui::bigfont::{bounds_value, ink_bounds, optical_center_quarters, optical_quarters, GLYPH_ROWS};
use crate::ui::detail::Rect;
use crate::ui::theme::{CYAN, FOG_GREY, GOLD, LAVENDER, PALE, PEACH};

verus! {

/// The colour the falling particles of a condition get.
pub open spec fn particle_tint(condition: Condition) -> (u8, u8, u8) {
    match condition {
        Condition::Rain | Condition::RainShowers | Condition::Freezing => CYAN,
        Condition::Drizzle => LAVENDER,
        Condition::Fog => FOG_GREY,
        _ => PALE,
    }
}

/// The colour the falling particles of a condition get.
pub fn particle_color(condition: Condition) -> (c: (u8, u8, u8))
    ensures
        c == particle_tint(condition),
{
    match condition {
        Condition::Rain | Condition::RainShowers | Condition::Freezing => CYAN,
        Condition::Drizzle => LAVENDER,
        Condition::Snow | Condition::SnowShowers => PALE,
        Condition::Fog => FOG_GREY,
        Condition::Thunderstorm => PALE,
        Condition::Clear | Condition::PartlyCloudy | Condition::Overcast => PALE,
    }
}

/// The two ends of the gradient across the big temperature.
pub open spec fn hero_stops(condition: Condition, is_day: bool) -> ((u8, u8, u8), (u8, u8, u8)) {
    match condition {
        Condition::Clear => if is_day {
            (GOLD, PEACH)
        } else {
            (LAVENDER, CYAN)
        },
        Condition::PartlyCloudy | Condition::Overcast => (LAVENDER, PALE),
        Condition::Fog => (FOG_GREY, PALE),
        Condition::Drizzle | Condition::Rain | Condition::RainShowers | Condition::Freezing => (CYAN, LAVENDER),
        Condition::Snow | Condition::SnowShowers => (PALE, CYAN),
        Condition::Thunderstorm => (GOLD, LAVENDER),
    }
}

/// The two ends of the gradient across the big temperature.
pub fn hero_gradient(condition: Condition, is_day: bool) -> (g: ((u8, u8, u8), (u8, u8, u8)))
    ensures
        g == hero_stops(condition, is_day),
{
    match condition {
        Condition::Clear => if is_day {
            (GOLD, PEACH)
        } else {
            (LAVENDER, CYAN)
        },
        Condition::PartlyCloudy | Condition::Overcast => (LAVENDER, PALE),
        Condition::Fog => (FOG_GREY, PALE),
        Condition::Drizzle | Condition::Rain | Condition::RainShowers | Condition::Freezing => (CYAN, LAVENDER),
        Condition::Snow | Condition::SnowShowers => (PALE, CYAN),
        Condition::Thunderstorm => (GOLD, LAVENDER),
    }
}

/// The icon shown beside the condition's label.
pub open spec fn icon(condition: Condition, is_day: bool) -> Seq<char> {
    match condition {
        Condition::Clear => if is_day {
            "☀"@
        } else {
            "☾"@
        },
        Condition::PartlyCloudy => "⛅"@,
        Condition::Overcast => "☁"@,
        Condition::Fog => "▒"@,
        Condition::Drizzle => "⋰"@,
        Condition::Rain | Condition::RainShowers | Condition::Freezing => "☂"@,
        Condition::Snow | Condition::SnowShowers => "❄"@,
        Condition::Thunderstorm => "⚡"@,
    }
}

/// The icon shown beside the condition's label.
pub fn icon_for(condition: Condition, is_day: bool) -> (s: &'static str)
    ensures
        s@ == icon(condition, is_day),
{
    match condition {
        Condition::Clear => if is_day {
            "☀"
        } else {
            "☾"
        },
        Condition::PartlyCloudy => "⛅",
        Condition::Overcast => "☁",
        Condition::Fog => "▒",
        Condition::Drizzle => "⋰",
        Condition::Rain | Condition::RainShowers => "☂",
        Condition::Freezing => "☂",
        Condition::Snow | Condition::SnowShowers => "❄",
        Condition::Thunderstorm => "⚡",
    }
}


/// Where the big temperature and its label go, in terminal cells.
#[derive(Debug, Clone, Copy, PartialEq, Eq, Structural)]
pub struct HeroLayout {
    /// Terminal cells per font pixel, each way.
    pub scale: u16,
    /// The left edge of the first glyph's advance box.
    pub start_x: u16,
    /// The top edge of the glyphs.
    pub start_y: u16,
    /// The left edge of the ink.
    pub ink_left: u16,
    /// The width of the ink, at most the area's.
    pub ink_width: u16,
    /// The height of the glyphs.
    pub total_height: u16,
    /// The row of the icon-and-label line under the glyphs.
    pub label_row: u16,
    /// The plate cleared behind the glyphs and their label: rows `[top, bottom)`,
    /// columns `[left, right)`.
    pub plate_top: u16,
    pub plate_bottom: u16,
    pub plate_left: u16,
    pub plate_right: u16,
    /// The left edge of the label, centred in the area.
    pub label_x: u16,
}

pub open spec fn sat_sub(a: u16, b: u16) -> u16 {
    if a >= b {
        (a - b) as u16
    } else {
        0
    }
}

pub open spec fn max16(a: u16, b: u16) -> u16 {
    if a >= b {
        a
    } else {
        b
    }
}

pub open spec fn min16(a: u16, b: u16) -> u16 {
    if a <= b {
        a
    } else {
        b
    }
}

pub open spec fn min_int(a: int, b: int) -> int {
    if a <= b {
        a
    } else {
        b
    }
}

pub open spec fn floor_zero(a: int) -> int {
    if a >= 0 {
        a
    } else {
        0
    }
}

/// Whether glyphs drawn at `scale` fit: the run within the width less a margin of four,
/// the glyph height within half the height.
pub open spec fn scale_fits(cols: u16, area: Rect, scale: u16) -> bool {
    cols * scale <= sat_sub(area.width, 4) && GLYPH_ROWS * scale <= area.height / 2
}

/// The largest scale from four down to one at which the hero fits; one if none does.
pub open spec fn hero_scale(cols: u16, area: Rect) -> u16 {
    if scale_fits(cols, area, 4) {
        4
    } else if scale_fits(cols, area, 3) {
        3
    } else if scale_fits(cols, area, 2) {
        2
    } else {
        1
    }
}

/// What the hero is placed by: its ink span `[first, last)` in font-columns and four
/// times its optical centre. Text without ink is placed by its advance box.
pub open spec fn hero_marks(text: Seq<char>) -> (nat, nat, nat) {
    match (bounds_value(text, false), optical_quarters(text)) {
        (Some((f, l)), Some(q)) => (f, l, q),
        _ => (0, 6 * text.len(), 12 * text.len()),
    }
}

/// The layout of a hero of `chars` characters placed by `marks` (see `hero_marks`),
/// with a label of `label_len` characters, in `area`: the optical centre sits on the
/// middle of the area, rounded left and kept inside it.
pub open spec fn hero_placement(area: Rect, chars: nat, marks: (nat, nat, nat), label_len: nat) -> HeroLayout {
    let (first, last, quarters) = marks;
    let cols = (chars * 6) as u16;
    let scale = hero_scale(cols, area);
    let start_x = (area.x + floor_zero(2 * area.width - quarters * scale) / 4) as u16;
    let ink_left = min_int(start_x + first * scale, area.x + area.width) as u16;
    let ink_width = min_int((last - first) * scale, area.width as int) as u16;
    let total_height = (GLYPH_ROWS * scale) as u16;
    let start_y = (area.y + sat_sub(area.height, total_height) * 2 / 5) as u16;
    let label_row = (start_y + total_height + 1) as u16;
    HeroLayout {
        scale,
        start_x,
        start_y,
        ink_left,
        ink_width,
        total_height,
        label_row,
        plate_top: sat_sub(start_y, 1),
        plate_bottom: min16((label_row + 1) as u16, (area.y + area.height) as u16),
        plate_left: max16(sat_sub(ink_left, 2), area.x),
        plate_right: min_int(ink_left + ink_width + 2, area.x + area.width) as u16,
        label_x: (area.x + sat_sub(area.width, label_len as u16) / 2) as u16,
    }
}

/// The largest scale from four down to one at which `cols` font-columns fit in `area`.
fn fit_scale(cols: u16, area: Rect) -> (scale: u16)
    requires
        cols * 4 <= u16::MAX,
    ensures
        scale == hero_scale(cols, area),
{
    let room: u16 = if area.width >= 4 {
        area.width - 4
    } else {
        0
    };
    let mut scale: u16 = 4;
    while scale > 1 && (cols * scale > room || 5 * scale > area.height / 2)
        invariant
            room == sat_sub(area.width, 4),
            1 <= scale <= 4,
            cols * 4 <= u16::MAX,
            scale < 4 ==> !scale_fits(cols, area, 4),
            scale < 3 ==> !scale_fits(cols, area, 3),
            scale < 2 ==> !scale_fits(cols, area, 2),
        decreases scale,
    {
        scale = scale - 1;
    }
    scale
}

/// The glyph origin, ink left edge and ink width of a hero placed by `first`, `last`
/// and `quarters` at `scale` in `area`.
fn hero_columns(area: Rect, scale: u16, first: usize, last: usize, quarters: usize) -> (r: (u16, u16, u16))
    requires
        1 <= scale <= 4,
        first <= last <= 16380,
        quarters <= 65520,
        area.x + area.width + 2 <= u16::MAX,
    ensures
        r.0 == (area.x + floor_zero(2 * area.width - quarters * scale) / 4) as u16,
        r.1 == min_int(r.0 + first * scale, area.x + area.width) as u16,
        r.2 == min_int((last - first) * scale, area.width as int) as u16,
        r.1 <= area.x + area.width,
        r.2 <= area.width,
        r.0 <= area.x + area.width,
{
    assert(quarters * scale <= 65520 * 4 && first * scale <= 16380 * 4 && (last - first) * scale <= 16380 * 4)
        by (nonlinear_arith)
        requires
            1 <= scale <= 4,
            first <= last <= 16380,
            quarters <= 65520,
    ;
    let twice: u32 = 2 * (area.width as u32);
    let pull: u32 = (quarters as u32) * (scale as u32);
    let spare: u32 = if twice >= pull { twice - pull } else { 0 };
    let start_x: u16 = area.x + (spare / 4) as u16;
    let right: u32 = (area.x as u32) + (area.width as u32);
    let left: u32 = (start_x as u32) + (first as u32) * (scale as u32);
    let ink_left: u16 = if left <= right { left as u16 } else { right as u16 };
    let span: u32 = ((last - first) as u32) * (scale as u32);
    let ink_width: u16 = if span <= area.width as u32 { span as u16 } else { area.width };
    (start_x, ink_left, ink_width)
}

/// Where the big temperature `text` and its `label` go in `area`, at the largest scale up
/// to four that fits, two fifths of the way down the spare height. The hero is centred on
/// where it looks centred: the degree sign, a small superscript mark, counts for less
/// than a numeral, so a reading ending in one sits a little right of the middle.
pub fn hero_layout(area: Rect, text: &str, label: &str) -> (h: HeroLayout)
    requires
        text@.len() * 24 <= u16::MAX,
        area.height <= 32767,
        area.x + area.width + 2 <= u16::MAX,
        area.y + area.height + 22 <= u16::MAX,
    ensures
        h == hero_placement(area, text@.len(), hero_marks(text@), label@.len()),
{
    let n = char_count(text);
    let scale = fit_scale((n * 6) as u16, area);
    let (first, last, quarters) = match (ink_bounds(text), optical_center_quarters(text)) {
        (Some((a, b)), Some(q)) => (a, b, q),
        _ => (0, n * 6, n * 12),
    };
    let (start_x, ink_left, ink_width) = hero_columns(area, scale, first, last, quarters);
    let total_height = 5 * scale;
    let spare = if area.height >= total_height { area.height - total_height } else { 0 };
    assert(spare * 2 / 5 <= spare) by (nonlinear_arith)
        requires
            spare >= 0,
    ;
    let start_y = area.y + spare * 2 / 5;
    let label_row = start_y + total_height + 1;
    let bottom = area.y + area.height;
    let right = area.x + area.width;
    let label_len = char_count(label) as u16;
    let plate_left = if ink_left >= 2 { ink_left - 2 } else { 0 };
    let ink_right: u32 = (ink_left as u32) + (ink_width as u32) + 2;
    HeroLayout {
        scale,
        start_x,
        start_y,
        ink_left,
        ink_width,
        total_height,
        label_row,
        plate_top: if start_y >= 1 { start_y - 1 } else { 0 },
        plate_bottom: if label_row + 1 <= bottom { label_row + 1 } else { bottom },
        plate_left: if plate_left >= area.x { plate_left } else { area.x },
        plate_right: if ink_right <= right as u32 { ink_right as u16 } else { right },
        label_x: area.x + (if area.width >= label_len { area.width - label_len } else { 0 }) / 2,
    }
}

} // verus!
