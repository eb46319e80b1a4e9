//! The `d` panel: where it goes on the screen, and its title.
use vstd::prelude::*;

use crate::net::model::{Location, LocationView};
use crate::text::{owned, push_str};

verus! {

pub const PANEL_WIDTH: u16 = 56;
pub const PANEL_HEIGHT: u16 = 16;

/// A rectangle of terminal cells.
#[derive(Debug, Clone, Copy, PartialEq, Eq, Structural)]
pub struct Rect {
    pub x: u16,
    pub y: u16,
    pub width: u16,
    pub height: u16,
}

impl Rect {
    pub fn new(x: u16, y: u16, width: u16, height: u16) -> (r: Rect)
        ensures
            r == (Rect { x, y, width, height }),
    {
        Rect { x, y, width, height }
    }
}

pub open spec fn min_u16(a: u16, b: u16) -> u16 {
    if a <= b {
        a
    } else {
        b
    }
}

/// The rect of at most `width` x `height`, centred in `r` and clamped to fit it.
pub open spec fn centered(width: u16, height: u16, r: Rect) -> Rect {
    let w = min_u16(width, r.width);
    let h = min_u16(height, r.height);
    Rect {
        x: (r.x + (r.width - w) / 2) as u16,
        y: (r.y + (r.height - h) / 2) as u16,
        width: w,
        height: h,
    }
}

/// A rect of at most `width` x `height`, centred in `r` and clamped to fit it.
pub fn centered_rect(width: u16, height: u16, r: Rect) -> (c: Rect)
    requires
        r.x + (r.width - min_u16(width, r.width)) / 2 <= u16::MAX,
        r.y + (r.height - min_u16(height, r.height)) / 2 <= u16::MAX,
    ensures
        c == centered(width, height, r),
        c.width <= width && c.height <= height,
        r.x <= c.x && c.x + c.width <= r.x + r.width,
        r.y <= c.y && c.y + c.height <= r.y + r.height,
        (c.x - r.x) <= (r.x + r.width) - (c.x + c.width) <= (c.x - r.x) + 1,
        (c.y - r.y) <= (r.y + r.height) - (c.y + c.height) <= (c.y - r.y) + 1,
{
    let w = if width < r.width { width } else { r.width };
    let h = if height < r.height { height } else { r.height };
    Rect { x: r.x + (r.width - w) / 2, y: r.y + (r.height - h) / 2, width: w, height: h }
}

/// The panel's title: the city, with its region after a comma where there is one,
/// padded by a space on each side.
pub open spec fn title_text(l: LocationView) -> Seq<char> {
    if l.region.len() == 0 {
        " "@ + l.city + " "@
    } else {
        " "@ + l.city + ", "@ + l.region + " "@
    }
}

/// The panel's title for the place a reading was taken at.
pub fn panel_title(location: &Location) -> (r: String)
    ensures
        r@ == title_text(location@),
{
    let mut r = owned(" ");
    push_str(&mut r, location.city.as_str());
    if !location.region.as_str().is_empty() {
        push_str(&mut r, ", ");
        push_str(&mut r, location.region.as_str());
    }
    push_str(&mut r, " ");
    r
}

} // verus!
