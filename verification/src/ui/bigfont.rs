//! A tiny hand-rolled 5x5 dot-matrix font, rendered as blocky ASCII art.
//! Each glyph is 5 rows of a 5-character string; '#' is a filled pixel, '.' an empty one.
use vstd::prelude::*;

use crate::text::chars_of;

verus! {

pub const GLYPH_ROWS: usize = 5;
pub const GLYPH_COLS: usize = 5;

/// `c` with an ASCII small letter turned into its capital.
pub open spec fn ascii_upper(c: char) -> char {
    if 'a' <= c && c <= 'z' {
        ((c as u32) - 32) as char
    } else {
        c
    }
}

fn to_ascii_upper(c: char) -> (r: char)
    ensures
        r == ascii_upper(c),
{
    if 'a' <= c && c <= 'z' {
        ((c as u8) - 32) as char
    } else {
        c
    }
}

/// The rows of the glyph drawn for `c`; letters in either case look the same, and a
/// character the font lacks is blank.
pub open spec fn glyph_rows(c: char) -> Seq<Seq<char>> {
    let u = ascii_upper(c);
    if u == '0' {
        seq!["#####"@, "#...#"@, "#...#"@, "#...#"@, "#####"@]
    } else if u == '1' {
        seq!["..#.."@, ".##.."@, "..#.."@, "..#.."@, ".###."@]
    } else if u == '2' {
        seq!["####."@, "....#"@, "..##."@, ".#..."@, "#####"@]
    } else if u == '3' {
        seq!["####."@, "....#"@, "..##."@, "....#"@, "####."@]
    } else if u == '4' {
        seq!["#..#."@, "#..#."@, "#####"@, "...#."@, "...#."@]
    } else if u == '5' {
        seq!["#####"@, "#...."@, "####."@, "....#"@, "####."@]
    } else if u == '6' {
        seq!["..##."@, ".#..."@, "####."@, "#...#"@, ".###."@]
    } else if u == '7' {
        seq!["#####"@, "...#."@, "..#.."@, ".#..."@, ".#..."@]
    } else if u == '8' {
        seq![".###."@, "#...#"@, ".###."@, "#...#"@, ".###."@]
    } else if u == '9' {
        seq![".###."@, "#...#"@, ".####"@, "....#"@, ".###."@]
    } else if u == '\u{b0}' {
        seq![".##.."@, "#..#."@, ".##.."@, "....."@, "....."@]
    } else if u == ':' {
        seq!["....."@, "..#.."@, "....."@, "..#.."@, "....."@]
    } else if u == '-' {
        seq!["....."@, "....."@, "#####"@, "....."@, "....."@]
    } else if u == 'A' {
        seq!["..#.."@, ".#.#."@, "#####"@, "#...#"@, "#...#"@]
    } else if u == 'C' {
        seq![".####"@, "#...."@, "#...."@, "#...."@, ".####"@]
    } else if u == 'D' {
        seq!["####."@, "#...#"@, "#...#"@, "#...#"@, "####."@]
    } else if u == 'E' {
        seq!["#####"@, "#...."@, "####."@, "#...."@, "#####"@]
    } else if u == 'F' {
        seq!["#####"@, "#...."@, "####."@, "#...."@, "#...."@]
    } else if u == 'G' {
        seq![".####"@, "#...."@, "#.###"@, "#...#"@, ".###."@]
    } else if u == 'H' {
        seq!["#...#"@, "#...#"@, "#####"@, "#...#"@, "#...#"@]
    } else if u == 'I' {
        seq!["#####"@, "..#.."@, "..#.."@, "..#.."@, "#####"@]
    } else if u == 'L' {
        seq!["#...."@, "#...."@, "#...."@, "#...."@, "#####"@]
    } else if u == 'N' {
        seq!["#...#"@, "##..#"@, "#.#.#"@, "#..##"@, "#...#"@]
    } else if u == 'O' {
        seq![".###."@, "#...#"@, "#...#"@, "#...#"@, ".###."@]
    } else if u == 'R' {
        seq!["####."@, "#...#"@, "####."@, "#..#."@, "#...#"@]
    } else if u == 'S' {
        seq![".####"@, "#...."@, ".###."@, "....#"@, "####."@]
    } else if u == 'T' {
        seq!["#####"@, "..#.."@, "..#.."@, "..#.."@, "..#.."@]
    } else if u == 'U' {
        seq!["#...#"@, "#...#"@, "#...#"@, "#...#"@, ".###."@]
    } else if u == 'V' {
        seq!["#...#"@, "#...#"@, "#...#"@, ".#.#."@, "..#.."@]
    } else if u == 'W' {
        seq!["#...#"@, "#...#"@, "#.#.#"@, "##.##"@, "#...#"@]
    } else if u == 'Y' {
        seq!["#...#"@, ".#.#."@, "..#.."@, "..#.."@, "..#.."@]
    } else if u == 'Z' {
        seq!["#####"@, "...#."@, "..#.."@, ".#..."@, "#####"@]
    } else {
        seq!["....."@, "....."@, "....."@, "....."@, "....."@]
    }
}

/// The glyph drawn for `c`.
pub fn glyph(c: char) -> (g: [&'static str; GLYPH_ROWS])
    ensures
        g@.map_values(|r: &'static str| r@) == glyph_rows(c),
{
    let g: [&'static str; 5] = match to_ascii_upper(c) {
        '0' => ["#####", "#...#", "#...#", "#...#", "#####"],
        '1' => ["..#..", ".##..", "..#..", "..#..", ".###."],
        '2' => ["####.", "....#", "..##.", ".#...", "#####"],
        '3' => ["####.", "....#", "..##.", "....#", "####."],
        '4' => ["#..#.", "#..#.", "#####", "...#.", "...#."],
        '5' => ["#####", "#....", "####.", "....#", "####."],
        '6' => ["..##.", ".#...", "####.", "#...#", ".###."],
        '7' => ["#####", "...#.", "..#..", ".#...", ".#..."],
        '8' => [".###.", "#...#", ".###.", "#...#", ".###."],
        '9' => [".###.", "#...#", ".####", "....#", ".###."],
        '\u{b0}' => [".##..", "#..#.", ".##..", ".....", "....."],
        ':' => [".....", "..#..", ".....", "..#..", "....."],
        '-' => [".....", ".....", "#####", ".....", "....."],
        'A' => ["..#..", ".#.#.", "#####", "#...#", "#...#"],
        'C' => [".####", "#....", "#....", "#....", ".####"],
        'D' => ["####.", "#...#", "#...#", "#...#", "####."],
        'E' => ["#####", "#....", "####.", "#....", "#####"],
        'F' => ["#####", "#....", "####.", "#....", "#...."],
        'G' => [".####", "#....", "#.###", "#...#", ".###."],
        'H' => ["#...#", "#...#", "#####", "#...#", "#...#"],
        'I' => ["#####", "..#..", "..#..", "..#..", "#####"],
        'L' => ["#....", "#....", "#....", "#....", "#####"],
        'N' => ["#...#", "##..#", "#.#.#", "#..##", "#...#"],
        'O' => [".###.", "#...#", "#...#", "#...#", ".###."],
        'R' => ["####.", "#...#", "####.", "#..#.", "#...#"],
        'S' => [".####", "#....", ".###.", "....#", "####."],
        'T' => ["#####", "..#..", "..#..", "..#..", "..#.."],
        'U' => ["#...#", "#...#", "#...#", "#...#", ".###."],
        'V' => ["#...#", "#...#", "#...#", ".#.#.", "..#.."],
        'W' => ["#...#", "#...#", "#.#.#", "##.##", "#...#"],
        'Y' => ["#...#", ".#.#.", "..#..", "..#..", "..#.."],
        'Z' => ["#####", "...#.", "..#..", ".#...", "#####"],
        _ => [".....", ".....", ".....", ".....", "....."],
    };
    assert(g@.map_values(|r: &'static str| r@) =~= glyph_rows(c));
    g
}

/// Width in font-columns of a single character including trailing spacing.
pub fn glyph_advance() -> (n: usize)
    ensures
        n == GLYPH_COLS + 1,
{
    GLYPH_COLS + 1
}


/// Whether column `col` of the glyph `rows` has a filled pixel in some row.
pub open spec fn column_inked(rows: Seq<Seq<char>>, col: int) -> bool {
    exists|r: int| 0 <= r < rows.len() && 0 <= col < rows[r].len() && #[trigger] rows[r][col] == '#'
}

/// `span` is the tightest range `[first, last)` around the inked columns of `rows`.
pub open spec fn glyph_span(rows: Seq<Seq<char>>, span: Option<(int, int)>) -> bool {
    match span {
        None => forall|x: int| !#[trigger] column_inked(rows, x),
        Some((first, last)) => column_inked(rows, first) && column_inked(rows, last - 1)
            && forall|x: int| #[trigger] column_inked(rows, x) ==> first <= x < last,
    }
}

/// Whether a glyph is laid out for the character: all are, or all but degree signs.
pub open spec fn counted(c: char, skip_degree: bool) -> bool {
    !(skip_degree && c == '\u{b0}')
}

/// Whether font-column `x` holds ink when `text` is laid out at `glyph_advance()` spacing,
/// counting only the characters `counted` accepts (the others still take their place).
pub open spec fn inked(text: Seq<char>, skip_degree: bool, x: int) -> bool {
    exists|i: int, col: int|
        0 <= i < text.len() && counted(text[i], skip_degree) && #[trigger] column_inked(glyph_rows(text[i]), col)
            && x == i * 6 + col
}

/// `span` is the tightest range `[first, last)` around the inked font-columns of `text`.
pub open spec fn ink_span(text: Seq<char>, skip_degree: bool, span: Option<(int, int)>) -> bool {
    match span {
        None => forall|x: int| !#[trigger] inked(text, skip_degree, x),
        Some((first, last)) => inked(text, skip_degree, first) && inked(text, skip_degree, last - 1)
            && forall|x: int| #[trigger] inked(text, skip_degree, x) ==> first <= x < last,
    }
}

pub open spec fn span_of(o: Option<(usize, usize)>) -> Option<(int, int)> {
    match o {
        Some((a, b)) => Some((a as int, b as int)),
        None => None,
    }
}

/// Inked cells among the rows before `r`, and the first `c` cells of row `r`.
spec fn seen_ink(rows: Seq<Seq<char>>, r: int, c: int, col: int) -> bool {
    (exists|q: int| 0 <= q < r && 0 <= col < rows[q].len() && #[trigger] rows[q][col] == '#')
        || (0 <= r < rows.len() && 0 <= col < c && col < rows[r].len() && rows[r][col] == '#')
}

spec fn seen_span(rows: Seq<Seq<char>>, r: int, c: int, span: Option<(int, int)>) -> bool {
    match span {
        None => forall|x: int| !#[trigger] seen_ink(rows, r, c, x),
        Some((first, last)) => seen_ink(rows, r, c, first) && seen_ink(rows, r, c, last - 1)
            && forall|x: int| #[trigger] seen_ink(rows, r, c, x) ==> first <= x < last,
    }
}

/// The columns of glyph `g` that hold ink, as a range.
fn glyph_ink(g: &[&'static str; GLYPH_ROWS]) -> (r: Option<(usize, usize)>)
    ensures
        glyph_span(g@.map_values(|s: &'static str| s@), span_of(r)),
{
    let ghost rows = g@.map_values(|s: &'static str| s@);
    let mut acc: Option<(usize, usize)> = None;
    let mut r: usize = 0;
    while r < GLYPH_ROWS
        invariant
            r <= GLYPH_ROWS,
            rows == g@.map_values(|s: &'static str| s@),
            rows.len() == GLYPH_ROWS,
            seen_span(rows, r as int, 0, span_of(acc)),
        decreases GLYPH_ROWS - r,
    {
        let row = chars_of(g[r]);
        assert(row@ == rows[r as int]);
        let mut c: usize = 0;
        while c < row.len()
            invariant
                r < GLYPH_ROWS,
                c <= row@.len(),
                rows == g@.map_values(|s: &'static str| s@),
                rows.len() == GLYPH_ROWS,
                row@ == rows[r as int],
                seen_span(rows, r as int, c as int, span_of(acc)),
            decreases row.len() - c,
        {
            let ghost old_acc = acc;
            assert forall|x: int| #[trigger] seen_ink(rows, r as int, c + 1, x)
                == (seen_ink(rows, r as int, c as int, x) || (x == c && row@[c as int] == '#')) by {}
            if row[c] == '#' {
                acc = match acc {
                    None => Some((c, c + 1)),
                    Some((a, b)) => Some((if c < a { c } else { a }, if c + 1 > b { c + 1 } else { b })),
                };
            }
            c = c + 1;
        }
        assert forall|x: int| #[trigger] seen_ink(rows, r + 1, 0, x) == seen_ink(rows, r as int, row@.len() as int, x) by {
            if seen_ink(rows, r as int, row@.len() as int, x) && !(exists|q: int| 0 <= q < r && 0 <= x < rows[q].len() && #[trigger] rows[q][x] == '#') {
                assert(rows[r as int][x] == '#');
            }
        }
        r = r + 1;
    }
    assert forall|x: int| #[trigger] seen_ink(rows, GLYPH_ROWS as int, 0, x) == column_inked(rows, x) by {}
    match acc {
        None => {
            assert forall|x: int| !#[trigger] column_inked(rows, x) by {
                assert(!seen_ink(rows, GLYPH_ROWS as int, 0, x));
            }
        },
        Some((a, b)) => {
            assert(seen_ink(rows, GLYPH_ROWS as int, 0, a as int));
            assert(seen_ink(rows, GLYPH_ROWS as int, 0, b - 1));
            assert forall|x: int| #[trigger] column_inked(rows, x) implies a <= x < b by {
                assert(seen_ink(rows, GLYPH_ROWS as int, 0, x));
            }
        },
    }
    acc
}


/// A glyph row: five pixels, each filled (`#`) or empty (`.`).
pub open spec fn is_pixel_row(row: Seq<char>) -> bool {
    row.len() == GLYPH_COLS && forall|k: int| 0 <= k < row.len() ==> #[trigger] row[k] == '#' || row[k] == '.'
}

/// Every glyph is five rows of five pixels.
pub proof fn lemma_glyph_shape(c: char)
    ensures
        glyph_rows(c).len() == GLYPH_ROWS,
        forall|r: int| 0 <= r < GLYPH_ROWS ==> is_pixel_row(#[trigger] glyph_rows(c)[r]),
{
    reveal_strlit("#####");
    reveal_strlit("####.");
    reveal_strlit("##.##");
    reveal_strlit("##..#");
    reveal_strlit("#.###");
    reveal_strlit("#.#.#");
    reveal_strlit("#..##");
    reveal_strlit("#..#.");
    reveal_strlit("#...#");
    reveal_strlit("#....");
    reveal_strlit(".####");
    reveal_strlit(".###.");
    reveal_strlit(".##..");
    reveal_strlit(".#.#.");
    reveal_strlit(".#...");
    reveal_strlit("..##.");
    reveal_strlit("..#..");
    reveal_strlit("...#.");
    reveal_strlit("....#");
    reveal_strlit(".....");
}


/// The ink span of `text` (all characters, or all but degree signs), as a value.
pub open spec fn bounds_value(text: Seq<char>, skip_degree: bool) -> Option<(nat, nat)> {
    if exists|f: nat, l: nat| #[trigger] ink_span(text, skip_degree, Some((f as int, l as int))) {
        let (f, l) = choose|f: nat, l: nat| #[trigger] ink_span(text, skip_degree, Some((f as int, l as int)));
        Some((f, l))
    } else {
        None
    }
}

pub open spec fn nat_span(r: Option<(usize, usize)>) -> Option<(nat, nat)> {
    match r {
        Some((a, b)) => Some((a as nat, b as nat)),
        None => None,
    }
}

/// There is only one tightest span, so a span that fits is the span.
proof fn lemma_bounds_value(text: Seq<char>, skip_degree: bool, r: Option<(usize, usize)>)
    requires
        ink_span(text, skip_degree, span_of(r)),
    ensures
        bounds_value(text, skip_degree) == nat_span(r),
{
    match r {
        Some((a, b)) => {
            assert(ink_span(text, skip_degree, Some((a as nat as int, b as nat as int))));
            let (f, l) = choose|f: nat, l: nat| #[trigger] ink_span(text, skip_degree, Some((f as int, l as int)));
            assert(inked(text, skip_degree, f as int));
            assert(inked(text, skip_degree, l - 1));
            assert(inked(text, skip_degree, a as int));
            assert(inked(text, skip_degree, b - 1));
        },
        None => {
            if exists|f: nat, l: nat| #[trigger] ink_span(text, skip_degree, Some((f as int, l as int))) {
                let (f, l) = choose|f: nat, l: nat| #[trigger] ink_span(text, skip_degree, Some((f as int, l as int)));
                assert(inked(text, skip_degree, f as int));
            }
        },
    }
}

/// Four times the optical center of `text` in font-columns: the midpoint of the ink
/// averaged with the midpoint of the ink without degree signs, or the midpoint of the ink
/// alone when nothing but degree signs is inked.
pub open spec fn optical_quarters(text: Seq<char>) -> Option<nat> {
    match bounds_value(text, false) {
        None => None,
        Some((f, l)) => match bounds_value(text, true) {
            None => Some(2 * (f + l)),
            Some((df, dl)) => Some(f + l + df + dl),
        },
    }
}

/// Inked font-columns of the characters before position `i`.
spec fn seen_text(text: Seq<char>, skip_degree: bool, i: int, x: int) -> bool {
    exists|j: int, col: int|
        0 <= j < i && j < text.len() && counted(text[j], skip_degree)
            && #[trigger] column_inked(glyph_rows(text[j]), col) && x == j * 6 + col
}

spec fn seen_text_span(text: Seq<char>, skip_degree: bool, i: int, span: Option<(int, int)>) -> bool {
    match span {
        None => forall|x: int| !#[trigger] seen_text(text, skip_degree, i, x),
        Some((first, last)) => seen_text(text, skip_degree, i, first) && seen_text(text, skip_degree, i, last - 1)
            && forall|x: int| #[trigger] seen_text(text, skip_degree, i, x) ==> first <= x < last,
    }
}

/// The font-column range covered by ink when `text` is laid out at `glyph_advance()`
/// spacing, counting all characters or all but degree signs.
fn bounds_of(text: &str, skip_degree: bool) -> (r: Option<(usize, usize)>)
    requires
        text@.len() <= usize::MAX / 8,
    ensures
        ink_span(text@, skip_degree, span_of(r)),
        bounds_value(text@, skip_degree) == nat_span(r),
        match r {
            Some((a, b)) => a < b <= 6 * text@.len(),
            None => true,
        },
{
    let r = bounds_loop(text, skip_degree);
    proof {
        lemma_bounds_value(text@, skip_degree, r);
    }
    r
}

fn bounds_loop(text: &str, skip_degree: bool) -> (r: Option<(usize, usize)>)
    requires
        text@.len() <= usize::MAX / 8,
    ensures
        ink_span(text@, skip_degree, span_of(r)),
        match r {
            Some((a, b)) => a < b <= 6 * text@.len(),
            None => true,
        },
{
    let v = chars_of(text);
    let advance = glyph_advance();
    let mut acc: Option<(usize, usize)> = None;
    let mut i: usize = 0;
    while i < v.len()
        invariant
            i <= v@.len(),
            v@ == text@,
            v@.len() <= usize::MAX / 8,
            advance == 6,
            seen_text_span(v@, skip_degree, i as int, span_of(acc)),
            match acc {
                Some((a, b)) => a < b <= 6 * i,
                None => true,
            },
        decreases v.len() - i,
    {
        let c = v[i];
        let ghost rows = glyph_rows(c);
        proof {
            lemma_glyph_shape(c);
        }
        if !(skip_degree && c == '\u{b0}') {
            let g = glyph(c);
            let gi = glyph_ink(&g);
            assert(g@.map_values(|r: &'static str| r@) == rows);
            match gi {
                Some((ga, gb)) => {
                    assert(column_inked(rows, gb - 1));
                    assert(gb <= 5);
                    let lo = i * advance + ga;
                    let hi = i * advance + gb;
                    let ghost prev = acc;
                    acc = match acc {
                        None => Some((lo, hi)),
                        Some((a, b)) => Some((if lo < a { lo } else { a }, if hi > b { hi } else { b })),
                    };
                    assert forall|x: int| #[trigger] seen_text(v@, skip_degree, i + 1, x)
                        == (seen_text(v@, skip_degree, i as int, x) || column_inked(rows, x - 6 * i)) by {
                        if column_inked(rows, x - 6 * i) {
                            assert(column_inked(glyph_rows(v@[i as int]), x - 6 * i));
                        }
                        if seen_text(v@, skip_degree, i + 1, x) && !seen_text(v@, skip_degree, i as int, x) {
                            let (j, col) = choose|j: int, col: int|
                                0 <= j < i + 1 && j < v@.len() && counted(v@[j], skip_degree)
                                    && #[trigger] column_inked(glyph_rows(v@[j]), col) && x == j * 6 + col;
                            assert(j == i);
                        }
                    }
                    assert(column_inked(rows, ga as int));
                    assert(seen_text(v@, skip_degree, i + 1, lo as int));
                    assert(seen_text(v@, skip_degree, i + 1, hi - 1));
                    proof {
                        match prev {
                            Some((a, b)) => {
                                assert(seen_text(v@, skip_degree, i + 1, a as int));
                                assert(seen_text(v@, skip_degree, i + 1, b - 1));
                            },
                            None => {},
                        }
                    }
                },
                None => {
                    assert forall|x: int| #[trigger] seen_text(v@, skip_degree, i + 1, x)
                        == seen_text(v@, skip_degree, i as int, x) by {
                        if seen_text(v@, skip_degree, i + 1, x) && !seen_text(v@, skip_degree, i as int, x) {
                            let (j, col) = choose|j: int, col: int|
                                0 <= j < i + 1 && j < v@.len() && counted(v@[j], skip_degree)
                                    && #[trigger] column_inked(glyph_rows(v@[j]), col) && x == j * 6 + col;
                            assert(j == i);
                            assert(!column_inked(rows, col));
                        }
                    }
                    match acc {
                        Some((a, b)) => {
                            assert(seen_text(v@, skip_degree, i + 1, a as int));
                            assert(seen_text(v@, skip_degree, i + 1, b - 1));
                        },
                        None => {},
                    }
                },
            }
        } else {
            assert forall|x: int| #[trigger] seen_text(v@, skip_degree, i + 1, x)
                == seen_text(v@, skip_degree, i as int, x) by {
                if seen_text(v@, skip_degree, i + 1, x) && !seen_text(v@, skip_degree, i as int, x) {
                    let (j, col) = choose|j: int, col: int|
                        0 <= j < i + 1 && j < v@.len() && counted(v@[j], skip_degree)
                            && #[trigger] column_inked(glyph_rows(v@[j]), col) && x == j * 6 + col;
                    assert(j == i);
                }
            }
            match acc {
                Some((a, b)) => {
                    assert(seen_text(v@, skip_degree, i + 1, a as int));
                    assert(seen_text(v@, skip_degree, i + 1, b - 1));
                },
                None => {},
            }
        }
        i = i + 1;
    }
    assert forall|x: int| #[trigger] seen_text(v@, skip_degree, v@.len() as int, x) == inked(text@, skip_degree, x) by {}
    match acc {
        None => {
            assert forall|x: int| !#[trigger] inked(text@, skip_degree, x) by {
                assert(!seen_text(v@, skip_degree, v@.len() as int, x));
            }
        },
        Some((a, b)) => {
            assert(seen_text(v@, skip_degree, v@.len() as int, a as int));
            assert(seen_text(v@, skip_degree, v@.len() as int, b - 1));
            assert forall|x: int| #[trigger] inked(text@, skip_degree, x) implies a <= x < b by {
                assert(seen_text(v@, skip_degree, v@.len() as int, x));
            }
        },
    }
    acc
}

/// The font-column range `(first, last_exclusive)` covered by ink when `text` is laid out
/// at `glyph_advance()` spacing; `None` if nothing is inked.
///
/// Centering on the plain advance box shifts short strings visibly to the left: the box
/// includes the trailing inter-glyph gap, and glyphs such as '°' leave their right-hand
/// columns empty. Centering on these bounds puts the visible ink in the middle.
pub fn ink_bounds(text: &str) -> (r: Option<(usize, usize)>)
    requires
        text@.len() <= usize::MAX / 8,
    ensures
        ink_span(text@, false, span_of(r)),
        bounds_value(text@, false) == nat_span(r),
        match r {
            Some((a, b)) => a < b <= 6 * text@.len(),
            None => true,
        },
{
    bounds_of(text, false)
}

/// Four times the horizontal center at which `text` looks centered, in font-columns:
/// the midpoint of the ink, averaged with the midpoint of the ink without degree signs
/// (a small superscript mark the eye weighs far less than a digit). With nothing but
/// degree signs it is the midpoint of the ink alone. `None` if nothing is inked.
pub fn optical_center_quarters(text: &str) -> (r: Option<usize>)
    requires
        text@.len() <= usize::MAX / 32,
    ensures
        match r {
            Some(q) => optical_quarters(text@) == Some(q as nat),
            None => optical_quarters(text@) is None,
        },
        match r {
            Some(q) => q <= 24 * text@.len(),
            None => true,
        },
{
    match bounds_of(text, false) {
        None => None,
        Some((first, last)) => match bounds_of(text, true) {
            None => Some(2 * (first + last)),
            Some((df, dl)) => Some(first + last + df + dl),
        },
    }
}

/// Every character a temperature is written with (a digit, the minus sign or the degree
/// sign) leaves ink, so none of them vanishes from the big temperature. The minus sign is
/// a bar across the whole middle row and nothing else.
pub proof fn lemma_temperature_chars_inked(c: char)
    requires
        ('0' <= c && c <= '9') || c == '-' || c == '\u{b0}',
    ensures
        exists|col: int| column_inked(glyph_rows(c), col),
        c == '-' ==> forall|r: int, k: int|
            0 <= r < GLYPH_ROWS && 0 <= k < GLYPH_COLS ==> (#[trigger] glyph_rows(c)[r][k] == '#') == (r == 2),
{
    reveal_strlit("#####");
    reveal_strlit("####.");
    reveal_strlit("#..#.");
    reveal_strlit("..#..");
    reveal_strlit("..##.");
    reveal_strlit(".###.");
    reveal_strlit(".##..");
    reveal_strlit(".....");
    assert(c == '0' || c == '1' || c == '2' || c == '3' || c == '4' || c == '5' || c == '6' || c == '7'
        || c == '8' || c == '9' || c == '-' || c == '\u{b0}');
    if c == '0' {
        assert(glyph_rows(c)[0][0] == '#');
        assert(column_inked(glyph_rows(c), 0));
    }
    if c == '1' {
        assert(glyph_rows(c)[0][2] == '#');
        assert(column_inked(glyph_rows(c), 2));
    }
    if c == '2' {
        assert(glyph_rows(c)[0][0] == '#');
        assert(column_inked(glyph_rows(c), 0));
    }
    if c == '3' {
        assert(glyph_rows(c)[0][0] == '#');
        assert(column_inked(glyph_rows(c), 0));
    }
    if c == '4' {
        assert(glyph_rows(c)[0][0] == '#');
        assert(column_inked(glyph_rows(c), 0));
    }
    if c == '5' {
        assert(glyph_rows(c)[0][0] == '#');
        assert(column_inked(glyph_rows(c), 0));
    }
    if c == '6' {
        assert(glyph_rows(c)[0][2] == '#');
        assert(column_inked(glyph_rows(c), 2));
    }
    if c == '7' {
        assert(glyph_rows(c)[0][0] == '#');
        assert(column_inked(glyph_rows(c), 0));
    }
    if c == '8' {
        assert(glyph_rows(c)[0][1] == '#');
        assert(column_inked(glyph_rows(c), 1));
    }
    if c == '9' {
        assert(glyph_rows(c)[0][1] == '#');
        assert(column_inked(glyph_rows(c), 1));
    }
    if c == '\u{b0}' {
        assert(glyph_rows(c)[0][1] == '#');
        assert(column_inked(glyph_rows(c), 1));
    }
    if c == '-' {
        assert(glyph_rows(c)[2][0] == '#');
        assert(column_inked(glyph_rows(c), 0));
    }
}

} // verus!
