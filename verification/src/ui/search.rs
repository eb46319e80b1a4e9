//! The `l` location picker: the lines it shows, sized to the popup.
use vstd::prelude::*;

use crate::app::{Search, SearchView, StatusView};
use crate::text::{char_count, chars_of, decimal, decimal_string, owned, push_char, push_str, string_of};
use crate::ui::theme::{CYAN, MUTED_TEXT, PEACH};

verus! {

/// `text` cut to at most `max` characters, ending in "…" where it was cut.
pub open spec fn truncated(text: Seq<char>, max: nat) -> Seq<char> {
    if text.len() <= max {
        text
    } else if max == 0 {
        Seq::empty()
    } else if max == 1 {
        seq!['…']
    } else {
        text.take(max - 1).push('…')
    }
}

/// `text` cut to at most `max` characters, marking the cut with "…".
pub fn truncate(text: &str, max: usize) -> (r: String)
    ensures
        r@ == truncated(text@, max as nat),
        r@.len() <= max,
{
    let v = chars_of(text);
    if v.len() <= max {
        return string_of(v.as_slice(), 0, v.len());
    }
    if max == 0 {
        String::new()
    } else if max == 1 {
        let mut r = String::new();
        push_char(&mut r, '…');
        r
    } else {
        let mut r = string_of(v.as_slice(), 0, max - 1);
        push_char(&mut r, '…');
        r
    }
}


/// The popup's width.
pub const PANEL_WIDTH: u16 = 56;
/// Border, prompt row, status row, border.
pub const CHROME_HEIGHT: u16 = 4;
/// The "▸ " selection marker, indented one column to match the prompt.
pub const MARKER_WIDTH: usize = 3;

/// The total width of a line's pieces.
pub open spec fn spans_width(spans: Seq<Seq<char>>) -> nat
    decreases spans.len(),
{
    if spans.len() == 0 {
        0
    } else {
        spans_width(spans.drop_last()) + spans.last().len()
    }
}

pub open spec fn texts(v: Seq<String>) -> Seq<Seq<char>> {
    v.map_values(|s: String| s@)
}

/// The prompt row: "  > ", the tail of the query that fits, and the caret. The tail of
/// a long query matters more than its head while typing. In a popup this narrow the
/// chrome alone would fill the row, so it stays empty.
pub open spec fn prompt_spans(query: Seq<char>, inner: nat) -> Seq<Seq<char>> {
    if inner < 5 {
        Seq::empty()
    } else {
        let room = (inner - 5) as nat;
        let shown = if query.len() > room {
            query.skip(query.len() - room)
        } else {
            query
        };
        seq!["  > "@, shown, "▌"@]
    }
}

/// The prompt row of the picker, as its pieces.
pub fn prompt_line(query: &str, inner: usize) -> (r: Vec<String>)
    ensures
        texts(r@) == prompt_spans(query@, inner as nat),
        spans_width(texts(r@)) <= inner,
{
    let mut r: Vec<String> = Vec::new();
    if inner < 5 {
        assert(texts(r@) =~= Seq::<Seq<char>>::empty());
        return r;
    }
    let room = inner - 5;
    let v = chars_of(query);
    let shown = if v.len() > room {
        string_of(v.as_slice(), v.len() - room, v.len())
    } else {
        string_of(v.as_slice(), 0, v.len())
    };
    assert(v@.subrange(0, v@.len() as int) =~= v@);
    assert(v@.subrange(v@.len() - room, v@.len() as int) =~= v@.skip(v@.len() - room));
    r.push(owned("  > "));
    r.push(shown);
    r.push(owned("▌"));
    proof {
        reveal_strlit("  > ");
        reveal_strlit("▌");
        let sp = texts(r@);
        assert(sp =~= prompt_spans(query@, inner as nat));
        assert(sp.drop_last().drop_last().drop_last() =~= Seq::<Seq<char>>::empty());
        reveal_with_fuel(spans_width, 4);
    }
    r
}

/// The status row's text, before it is cut to the popup's width.
pub open spec fn picker_message(p: SearchView) -> Seq<char> {
    match p.status {
        StatusView::Typing => if p.results.len() == 0 {
            "  type a city, a postcode, or \"lat, lon\""@
        } else {
            "  "@ + decimal(p.results.len()) + " matches"@
        },
        StatusView::Searching => "  searching…"@,
        StatusView::NoMatches => "  nothing found for \""@ + p.submitted + "\""@,
        StatusView::Failed(e) => "  "@ + e,
    }
}

/// The colour of the status row: muted while typing, cyan while searching, peach for trouble.
pub open spec fn picker_tone(p: SearchView) -> (u8, u8, u8) {
    match p.status {
        StatusView::Typing => MUTED_TEXT,
        StatusView::Searching => CYAN,
        _ => PEACH,
    }
}

/// The status row of the picker, cut to `inner` characters, and its colour.
pub fn status_line(search: &Search, inner: usize) -> (r: (String, (u8, u8, u8)))
    ensures
        r.0@ == truncated(picker_message(search@), inner as nat),
        r.0@.len() <= inner,
        r.1 == picker_tone(search@),
{
    let (text, color) = match &search.status {
        crate::app::SearchStatus::Typing => if search.results.len() == 0 {
            (owned("  type a city, a postcode, or \"lat, lon\""), MUTED_TEXT)
        } else {
            let mut t = owned("  ");
            let d = decimal_string(search.results.len() as u64);
            push_str(&mut t, d.as_str());
            push_str(&mut t, " matches");
            (t, MUTED_TEXT)
        },
        crate::app::SearchStatus::Searching => (owned("  searching…"), CYAN),
        crate::app::SearchStatus::NoMatches => {
            let mut t = owned("  nothing found for \"");
            push_str(&mut t, search.submitted.as_str());
            push_str(&mut t, "\"");
            (t, PEACH)
        },
        crate::app::SearchStatus::Failed(e) => {
            let mut t = owned("  ");
            push_str(&mut t, e.as_str());
            (t, PEACH)
        },
    };
    (truncate(text.as_str(), inner), color)
}

/// A result row: the marker, the label cut to fit, and, where there is room (about 34
/// columns), the coordinates flush right with a margin after them.
pub open spec fn result_spans(label: Seq<char>, coords: Seq<char>, selected: bool, inner: nat) -> Seq<Seq<char>> {
    if inner < 5 {
        Seq::empty()
    } else {
        let show_coords = inner >= coords.len() + 20;
        let room = if show_coords {
            (inner - coords.len() - MARKER_WIDTH - 2) as nat
        } else {
            (inner - MARKER_WIDTH - 1) as nat
        };
        let shown = truncated(label, room);
        let marker = if selected {
            " ▸ "@
        } else {
            "   "@
        };
        if show_coords {
            let used = MARKER_WIDTH + shown.len() + coords.len();
            seq![marker, shown, Seq::new((inner - used - 1) as nat, |i: int| ' '), coords]
        } else {
            seq![marker, shown]
        }
    }
}

/// A row of the results list, as its pieces.
pub fn result_line(label: &str, coords: &str, selected: bool, inner: usize) -> (r: Vec<String>)
    requires
        coords@.len() + 20 <= usize::MAX,
    ensures
        texts(r@) == result_spans(label@, coords@, selected, inner as nat),
        spans_width(texts(r@)) <= inner,
{
    let mut r: Vec<String> = Vec::new();
    if inner < 5 {
        assert(texts(r@) =~= Seq::<Seq<char>>::empty());
        return r;
    }
    let n = char_count(coords);
    let show_coords = inner >= n + 20;
    let room = if show_coords {
        inner - n - MARKER_WIDTH - 2
    } else {
        inner - MARKER_WIDTH - 1
    };
    let shown = truncate(label, room);
    let marker = if selected {
        owned(" ▸ ")
    } else {
        owned("   ")
    };
    proof {
        reveal_strlit(" ▸ ");
        reveal_strlit("   ");
    }
    let shown_len = char_count(shown.as_str());
    r.push(marker);
    r.push(shown);
    if show_coords {
        let used = MARKER_WIDTH + shown_len + n;
        let mut pad = String::new();
        let mut k: usize = 0;
        while k < inner - used - 1
            invariant
                k <= inner - used - 1,
                pad@ =~= Seq::new(k as nat, |i: int| ' '),
            decreases inner - used - 1 - k,
        {
            push_char(&mut pad, ' ');
            k = k + 1;
        }
        r.push(pad);
        r.push(owned(coords));
        proof {
            let sp = texts(r@);
            assert(sp =~= result_spans(label@, coords@, selected, inner as nat));
            assert(sp.drop_last().drop_last().drop_last().drop_last() =~= Seq::<Seq<char>>::empty());
            reveal_with_fuel(spans_width, 5);
        }
    } else {
        proof {
            let sp = texts(r@);
            assert(sp =~= result_spans(label@, coords@, selected, inner as nat));
            assert(sp.drop_last().drop_last() =~= Seq::<Seq<char>>::empty());
            reveal_with_fuel(spans_width, 3);
        }
    }
    r
}

/// The key hints on the popup's bottom border, shorter below 44 columns.
pub open spec fn hint_text(results_empty: bool, width: u16) -> Seq<char> {
    let narrow = width < 44;
    if results_empty {
        if narrow {
            " ⏎ search · esc "@
        } else {
            " ⏎ search · esc cancel "@
        }
    } else if narrow {
        " ↑↓ · ⏎ use · esc "@
    } else {
        " ↑↓ select · ⏎ use · esc cancel "@
    }
}

/// The key hints for the picker in a popup `width` columns wide.
pub fn hint(search: &Search, width: u16) -> (r: String)
    ensures
        r@ == hint_text(search@.results.len() == 0, width),
{
    let narrow = width < 44;
    if search.results.len() == 0 {
        if narrow {
            owned(" ⏎ search · esc ")
        } else {
            owned(" ⏎ search · esc cancel ")
        }
    } else if narrow {
        owned(" ↑↓ · ⏎ use · esc ")
    } else {
        owned(" ↑↓ select · ⏎ use · esc cancel ")
    }
}

} // verus!
