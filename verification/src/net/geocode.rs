//! The location search: what is sent to the geocoder, and how its answers are named.
use vstd::prelude::*;

use crate::net::model::{Location, Place, PlaceView};
use crate::text::{
    all_space, chars_of, decimal, decimal_string, is_number_literal, is_space, is_whitespace,
    lemma_trim_empty, number_literal, owned, push_char, push_str, string_of, trim, trimmed,
};

verus! {

/// How many matches to ask the geocoder for. The picker shows all of them.
pub const MAX_RESULTS: usize = 8;

/// The characters a URL query parameter may hold as they are.
pub open spec fn is_unreserved(b: u8) -> bool {
    (65 <= b && b <= 90) || (97 <= b && b <= 122) || (48 <= b && b <= 57) || b == 45 || b == 95
        || b == 46 || b == 126
}

/// The upper-case hexadecimal digit for `n < 16`.
pub open spec fn hex_digit(n: nat) -> char {
    if n < 10 {
        (48 + n) as char
    } else {
        (55 + n) as char
    }
}

/// One byte of a query, percent-encoded.
pub open spec fn encoded_byte(b: u8) -> Seq<char> {
    if is_unreserved(b) {
        seq![b as char]
    } else {
        seq!['%', hex_digit(b as nat / 16), hex_digit(b as nat % 16)]
    }
}

pub open spec fn percent_encoded(bytes: Seq<u8>) -> Seq<char>
    decreases bytes.len(),
{
    if bytes.len() == 0 {
        Seq::empty()
    } else {
        percent_encoded(bytes.drop_last()) + encoded_byte(bytes.last())
    }
}

fn hex_char(n: u8) -> (c: char)
    requires
        n < 16,
    ensures
        c == hex_digit(n as nat),
{
    if n < 10 {
        (n + 48) as char
    } else {
        (n + 55) as char
    }
}

/// Percent-encodes a query for use in a URL parameter: each UTF-8 byte other than
/// letters, digits and `-_.~` becomes `%XX`.
pub fn encode(q: &str) -> (r: String)
    ensures
        r@ == percent_encoded(vstd::utf8::encode_utf8(q@)),
{
    let bytes = q.as_bytes();
    let mut out = String::new();
    let mut i: usize = 0;
    while i < bytes.len()
        invariant
            i <= bytes@.len(),
            bytes@ == vstd::utf8::encode_utf8(q@),
            out@ == percent_encoded(bytes@.take(i as int)),
        decreases bytes.len() - i,
    {
        let b = bytes[i];
        assert(bytes@.take(i + 1).drop_last() =~= bytes@.take(i as int));
        assert(bytes@.take(i + 1).last() == b);
        if (65 <= b && b <= 90) || (97 <= b && b <= 122) || (48 <= b && b <= 57) || b == 45 || b == 95
            || b == 46 || b == 126 {
            push_char(&mut out, b as char);
        } else {
            push_char(&mut out, '%');
            push_char(&mut out, hex_char(b / 16));
            push_char(&mut out, hex_char(b % 16));
        }
        i = i + 1;
    }
    assert(bytes@.take(bytes.len() as int) =~= bytes@);
    out
}

/// A value that holds more than whitespace.
pub open spec fn present(s: Option<Seq<char>>) -> Option<Seq<char>> {
    match s {
        Some(v) => if all_space(v) {
            None
        } else {
            Some(v)
        },
        None => None,
    }
}

pub open spec fn opt_text(o: Option<String>) -> Option<Seq<char>> {
    match o {
        Some(s) => Some(s@),
        None => None,
    }
}

/// `s`, unless it is missing or blank.
pub fn non_empty(s: Option<String>) -> (r: Option<String>)
    ensures
        opt_text(r) == present(opt_text(s)),
{
    match s {
        Some(v) => {
            let t = trimmed(v.as_str());
            proof {
                lemma_trim_empty(v@);
            }
            if t.as_str().is_empty() {
                None
            } else {
                Some(v)
            }
        },
        None => None,
    }
}

/// `parts` with each run of equal neighbours kept once.
pub open spec fn dedup(parts: Seq<Seq<char>>) -> Seq<Seq<char>>
    decreases parts.len(),
{
    if parts.len() < 2 {
        parts
    } else if parts.last() == parts[parts.len() - 2] {
        dedup(parts.drop_last())
    } else {
        dedup(parts.drop_last()).push(parts.last())
    }
}

/// `parts` joined with `sep` between neighbours.
pub open spec fn joined(parts: Seq<Seq<char>>, sep: Seq<char>) -> Seq<char>
    decreases parts.len(),
{
    if parts.len() == 0 {
        Seq::empty()
    } else if parts.len() == 1 {
        parts[0]
    } else {
        joined(parts.drop_last(), sep) + sep + parts.last()
    }
}

/// The name, the first-level region and the country, each if present.
pub open spec fn label_parts(name: Seq<char>, admin1: Option<Seq<char>>, country: Option<Seq<char>>) -> Seq<Seq<char>> {
    let with_admin = match present(admin1) {
        Some(a) => seq![name, a],
        None => seq![name],
    };
    match present(country) {
        Some(c) => with_admin.push(c),
        None => with_admin,
    }
}

/// The picker line for a match: "Mitte, Berlin, Germany", said once where parts repeat.
pub open spec fn place_label(name: Seq<char>, admin1: Option<Seq<char>>, country: Option<Seq<char>>) -> Seq<char> {
    joined(dedup(label_parts(name, admin1, country)), ", "@)
}

/// The one qualifier the status bar has room for: the region, else the country code,
/// else the country, else nothing.
pub open spec fn place_region(
    admin1: Option<Seq<char>>,
    country: Option<Seq<char>>,
    country_code: Option<Seq<char>>,
) -> Seq<char> {
    match present(admin1) {
        Some(a) => a,
        None => match present(country_code) {
            Some(c) => c,
            None => match present(country) {
                Some(c) => c,
                None => Seq::empty(),
            },
        },
    }
}

proof fn lemma_dedup_last(parts: Seq<Seq<char>>)
    requires
        parts.len() > 0,
    ensures
        dedup(parts).len() > 0,
        dedup(parts).last() == parts.last(),
    decreases parts.len(),
{
    if parts.len() >= 2 {
        lemma_dedup_last(parts.drop_last());
    }
}

fn join_parts(parts: &Vec<String>) -> (r: String)
    ensures
        r@ == joined(parts@.map_values(|s: String| s@), ", "@),
{
    let ghost ps = parts@.map_values(|s: String| s@);
    let mut r = String::new();
    let mut i: usize = 0;
    while i < parts.len()
        invariant
            i <= parts@.len(),
            ps == parts@.map_values(|s: String| s@),
            r@ == joined(ps.take(i as int), ", "@),
        decreases parts.len() - i,
    {
        if i > 0 {
            push_str(&mut r, ", ");
        }
        push_str(&mut r, parts[i].as_str());
        assert(ps.take(i + 1).drop_last() =~= ps.take(i as int));
        assert(ps.take(i + 1).last() == parts@[i as int]@);
        if i == 0 {
            assert(ps.take(1)[0] == parts@[0]@);
            assert(r@ =~= parts@[0]@);
        }
        i = i + 1;
    }
    assert(ps.take(parts.len() as int) =~= ps);
    r
}

impl Place {
    /// A geocoder match as a place: the label names it in full, the region gets the one
    /// qualifier that fits the status bar. Coordinates are IEEE-754 bit patterns.
    pub fn from_geocode(
        name: String,
        latitude_bits: u64,
        longitude_bits: u64,
        admin1: Option<String>,
        country: Option<String>,
        country_code: Option<String>,
    ) -> (p: Place)
        ensures
            p@.label == place_label(name@, opt_text(admin1), opt_text(country)),
            p@.location.city == name@,
            p@.location.region == place_region(opt_text(admin1), opt_text(country), opt_text(country_code)),
            p@.location.latitude_bits == latitude_bits,
            p@.location.longitude_bits == longitude_bits,
    {
        let admin1 = non_empty(admin1);
        let country = non_empty(country);
        let country_code = non_empty(country_code);
        let ghost all = label_parts(name@, opt_text(admin1), opt_text(country));
        let mut candidates: Vec<String> = Vec::new();
        candidates.push(name.clone());
        match &admin1 {
            Some(a) => candidates.push(a.clone()),
            None => {},
        }
        match &country {
            Some(c) => candidates.push(c.clone()),
            None => {},
        }
        assert(candidates@.map_values(|s: String| s@) =~= label_parts(name@, opt_text(admin1), opt_text(country)));
        // Duplicate segments are common ("Berlin, Berlin, Germany"); keep each once.
        let mut parts: Vec<String> = Vec::new();
        let mut i: usize = 0;
        while i < candidates.len()
            invariant
                i <= candidates@.len(),
                parts@.map_values(|s: String| s@) == dedup(candidates@.map_values(|s: String| s@).take(i as int)),
            decreases candidates.len() - i,
        {
            let ghost cs = candidates@.map_values(|s: String| s@);
            let ghost before = cs.take(i as int);
            assert(cs.take(i + 1).drop_last() =~= before);
            if i > 0 {
                proof {
                    lemma_dedup_last(before);
                }
                assert(before.last() == cs[i - 1]);
            }
            let keep = i == 0 || candidates[i] != candidates[i - 1];
            if keep {
                parts.push(candidates[i].clone());
                assert(parts@.map_values(|s: String| s@) =~= dedup(before).push(cs[i as int]));
            }
            proof {
                if i >= 1 {
                    assert(cs.take(i + 1).last() == cs[i as int]);
                    assert(cs.take(i + 1)[i - 1] == cs[i - 1]);
                } else {
                    assert(dedup(cs.take(1)) == cs.take(1));
                    assert(dedup(before) =~= Seq::<Seq<char>>::empty());
                    assert(cs.take(1) =~= seq![cs[0]]);
                }
            }
            i = i + 1;
        }
        assert(candidates@.map_values(|s: String| s@).take(candidates.len() as int) =~= candidates@.map_values(|s: String| s@));
        let label = join_parts(&parts);
        let region = match admin1 {
            Some(a) => a,
            None => match country_code {
                Some(c) => c,
                None => match country {
                    Some(c) => c,
                    None => String::new(),
                },
            },
        };
        Place {
            location: Location { city: name, region, latitude_bits, longitude_bits },
            label,
        }
    }
}

/// A separator between coordinates: a comma or whitespace.
pub open spec fn is_separator(c: char) -> bool {
    c == ',' || is_space(c)
}

/// The pieces of `text` between separators found so far, and the piece being read.
pub open spec fn token_scan(text: Seq<char>) -> (Seq<Seq<char>>, Seq<char>)
    decreases text.len(),
{
    if text.len() == 0 {
        (Seq::empty(), Seq::empty())
    } else {
        let (ts, cur) = token_scan(text.drop_last());
        let c = text.last();
        if is_separator(c) {
            (if cur.len() > 0 {
                ts.push(cur)
            } else {
                ts
            }, Seq::empty())
        } else {
            (ts, cur.push(c))
        }
    }
}

/// The nonempty pieces of `text` between commas and whitespace.
pub open spec fn tokens(text: Seq<char>) -> Seq<Seq<char>> {
    let (ts, cur) = token_scan(text);
    if cur.len() > 0 {
        ts.push(cur)
    } else {
        ts
    }
}

/// Coordinates typed straight into the search box ("52.52, 13.41"): exactly two pieces,
/// both numbers. A bare number is a postcode, not a coordinate.
pub open spec fn coordinate_texts(q: Seq<char>) -> Option<(Seq<char>, Seq<char>)> {
    let t = tokens(q);
    if t.len() == 2 && is_number_literal(t[0]) && is_number_literal(t[1]) {
        Some((t[0], t[1]))
    } else {
        None
    }
}

/// The latitude and longitude texts of a query that gives coordinates, if it does.
pub fn coordinate_fields(query: &str) -> (r: Option<(String, String)>)
    ensures
        match r {
            Some((a, b)) => coordinate_texts(query@) == Some((a@, b@)),
            None => coordinate_texts(query@) is None,
        },
{
    let s = chars_of(query);
    let mut toks: Vec<Vec<char>> = Vec::new();
    let mut cur: Vec<char> = Vec::new();
    let mut i: usize = 0;
    while i < s.len()
        invariant
            i <= s@.len(),
            s@ == query@,
            token_scan(s@.take(i as int)) == (toks@.map_values(|v: Vec<char>| v@), cur@),
        decreases s.len() - i,
    {
        let c = s[i];
        assert(s@.take(i + 1).drop_last() =~= s@.take(i as int));
        assert(s@.take(i + 1).last() == c);
        if c == ',' || is_whitespace(c) {
            if cur.len() > 0 {
                let piece = cur;
                toks.push(piece);
                cur = Vec::new();
                assert(toks@.map_values(|v: Vec<char>| v@) =~= token_scan(s@.take(i as int)).0.push(token_scan(s@.take(i as int)).1));
            }
            assert(cur@ =~= Seq::<char>::empty());
        } else {
            cur.push(c);
        }
        i = i + 1;
    }
    assert(s@.take(s.len() as int) =~= s@);
    if cur.len() > 0 {
        toks.push(cur);
    }
    assert(toks@.map_values(|v: Vec<char>| v@) =~= tokens(query@));
    if toks.len() != 2 {
        return None;
    }
    if !number_literal(toks[0].as_slice()) || !number_literal(toks[1].as_slice()) {
        return None;
    }
    let a = string_of(toks[0].as_slice(), 0, toks[0].len());
    let b = string_of(toks[1].as_slice(), 0, toks[1].len());
    assert(toks[0]@.subrange(0, toks[0]@.len() as int) =~= toks[0]@);
    assert(toks[1]@.subrange(0, toks[1]@.len() as int) =~= toks[1]@);
    Some((a, b))
}

/// The geocoder request for a query, given its UTF-8 bytes.
pub open spec fn search_address(query: Seq<u8>) -> Seq<char> {
    "https://geocoding-api.open-meteo.com/v1/search?name="@ + percent_encoded(query) + "&count="@
        + decimal(MAX_RESULTS as nat) + "&language=en&format=json"@
}

/// The geocoder request for `query`.
pub fn search_url(query: &str) -> (r: String)
    ensures
        r@ == search_address(vstd::utf8::encode_utf8(query@)),
{
    let mut r = owned("https://geocoding-api.open-meteo.com/v1/search?name=");
    let e = encode(query);
    push_str(&mut r, e.as_str());
    push_str(&mut r, "&count=");
    let n = decimal_string(MAX_RESULTS as u64);
    push_str(&mut r, n.as_str());
    push_str(&mut r, "&language=en&format=json");
    r
}


/// How a search is answered.
#[derive(Debug)]
pub enum Lookup {
    /// Nothing but whitespace was typed: no results, and no request.
    Nothing,
    /// Two numbers were typed. They are the place, exactly as typed, when they are valid
    /// degrees; otherwise the geocoder is asked at `url` after all.
    Coordinates { latitude: String, longitude: String, url: String },
    /// A name or a postcode: the geocoder is asked at this address.
    Geocoder(String),
}

pub enum LookupView {
    Nothing,
    Coordinates(Seq<char>, Seq<char>, Seq<char>),
    Geocoder(Seq<char>),
}

impl View for Lookup {
    type V = LookupView;

    open spec fn view(&self) -> LookupView {
        match self {
            Lookup::Nothing => LookupView::Nothing,
            Lookup::Coordinates { latitude, longitude, url } => LookupView::Coordinates(latitude@, longitude@, url@),
            Lookup::Geocoder(url) => LookupView::Geocoder(url@),
        }
    }
}

/// How the search for `query` is answered: the query is trimmed; a blank one finds
/// nothing without asking anyone, and typed coordinates need no lookup.
pub open spec fn planned(query: Seq<char>) -> LookupView {
    let q = trim(query);
    if q.len() == 0 {
        LookupView::Nothing
    } else {
        let url = search_address(vstd::utf8::encode_utf8(q));
        match coordinate_texts(q) {
            Some((a, b)) => LookupView::Coordinates(a, b, url),
            None => LookupView::Geocoder(url),
        }
    }
}

/// How the search for `query` is answered (see `planned`).
pub fn plan_search(query: &str) -> (r: Lookup)
    ensures
        r@ == planned(query@),
{
    let q = trimmed(query);
    if q.as_str().is_empty() {
        return Lookup::Nothing;
    }
    let url = search_url(q.as_str());
    match coordinate_fields(q.as_str()) {
        Some((latitude, longitude)) => Lookup::Coordinates { latitude, longitude, url },
        None => Lookup::Geocoder(url),
    }
}

/// The complaint the geocoder made, given the `error` and `reason` fields of its reply:
/// only `"error": true` is one, and it comes with its reason or a stock one.
pub open spec fn complaint(error: Option<bool>, reason: Option<Seq<char>>) -> Option<Seq<char>> {
    if error == Some(true) {
        match reason {
            Some(r) => Some(r),
            None => Some("the geocoder rejected that search"@),
        }
    } else {
        None
    }
}

/// The complaint the geocoder made about the query, if it made one.
pub fn geocoder_complaint(error: Option<bool>, reason: Option<String>) -> (r: Option<String>)
    ensures
        opt_text(r) == complaint(error, opt_text(reason)),
{
    match error {
        Some(true) => match reason {
            Some(r) => Some(r),
            None => Some(owned("the geocoder rejected that search")),
        },
        _ => None,
    }
}

/// What went wrong with a geocoder reply: its own complaint first, then an HTTP status
/// outside 200..=299; `None` if the reply can be read for matches.
pub open spec fn reply_trouble(complaint: Option<Seq<char>>, status: u16) -> Option<Seq<char>> {
    match complaint {
        Some(c) => Some(c),
        None => if 200 <= status && status <= 299 {
            None
        } else {
            Some("geocoder returned HTTP "@ + decimal(status as nat))
        },
    }
}

/// What went wrong with a geocoder reply, if anything.
pub fn reply_problem(complaint: Option<String>, status: u16) -> (r: Option<String>)
    ensures
        opt_text(r) == reply_trouble(opt_text(complaint), status),
{
    match complaint {
        Some(c) => Some(c),
        None => if 200 <= status && status <= 299 {
            None
        } else {
            let mut m = owned("geocoder returned HTTP ");
            let d = decimal_string(status as u64);
            push_str(&mut m, d.as_str());
            Some(m)
        },
    }
}

/// Reading on through characters that are not separators only extends the piece being read.
proof fn lemma_scan_through_piece(t: Seq<char>, u: Seq<char>)
    requires
        forall|i: int| 0 <= i < u.len() ==> !is_separator(#[trigger] u[i]),
    ensures
        token_scan(t + u) == (token_scan(t).0, token_scan(t).1 + u),
    decreases u.len(),
{
    if u.len() == 0 {
        assert(t + u =~= t);
        assert(token_scan(t).1 + u =~= token_scan(t).1);
    } else {
        let v = u.drop_last();
        lemma_scan_through_piece(t, v);
        assert((t + u).drop_last() =~= t + v);
        assert((t + u).last() == u.last());
        assert(token_scan(t).1 + v + seq![u.last()] =~= token_scan(t).1 + u);
        assert((token_scan(t).1 + v).push(u.last()) =~= token_scan(t).1 + u);
    }
}

/// A run of separators ends the piece being read, keeping it if it is not empty.
proof fn lemma_scan_through_separators(t: Seq<char>, sep: Seq<char>)
    requires
        sep.len() > 0,
        forall|i: int| 0 <= i < sep.len() ==> is_separator(#[trigger] sep[i]),
    ensures
        token_scan(t + sep) == (
            if token_scan(t).1.len() > 0 {
                token_scan(t).0.push(token_scan(t).1)
            } else {
                token_scan(t).0
            },
            Seq::<char>::empty(),
        ),
    decreases sep.len(),
{
    let v = sep.drop_last();
    assert((t + sep).drop_last() =~= t + v);
    assert((t + sep).last() == sep.last());
    assert(is_separator(sep[sep.len() - 1]));
    if v.len() == 0 {
        assert(t + v =~= t);
    } else {
        lemma_scan_through_separators(t, v);
    }
}

/// Two number literals typed with any run of commas and whitespace between them are the
/// two coordinate texts, exactly as typed and whatever their signs, and the search is
/// answered by them with no lookup (the geocoder's address is kept only for typed numbers
/// that turn out not to be valid degrees).
pub proof fn lemma_typed_coordinates_kept(query: Seq<char>, a: Seq<char>, sep: Seq<char>, b: Seq<char>)
    requires
        trim(query) == a + sep + b,
        is_number_literal(a),
        is_number_literal(b),
        sep.len() > 0,
        forall|i: int| 0 <= i < sep.len() ==> is_separator(#[trigger] sep[i]),
    ensures
        coordinate_texts(trim(query)) == Some((a, b)),
        planned(query) == LookupView::Coordinates(a, b, search_address(vstd::utf8::encode_utf8(trim(query)))),
{
    crate::text::lemma_number_literal_chars(a);
    crate::text::lemma_number_literal_chars(b);
    assert forall|i: int| 0 <= i < a.len() implies !is_separator(#[trigger] a[i]) by {
        crate::text::lemma_numeric_char_plain(a[i]);
    }
    assert forall|i: int| 0 <= i < b.len() implies !is_separator(#[trigger] b[i]) by {
        crate::text::lemma_numeric_char_plain(b[i]);
    }
    let e = Seq::<char>::empty();
    assert(e + a =~= a);
    assert(token_scan(e) == (Seq::<Seq<char>>::empty(), e));
    lemma_scan_through_piece(e, a);
    lemma_scan_through_separators(a, sep);
    lemma_scan_through_piece(a + sep, b);
    assert(e + b =~= b);
    assert(a + sep + b == (a + sep) + b);
    assert(tokens(a + sep + b) =~= seq![a, b]);
}

} // verus!
