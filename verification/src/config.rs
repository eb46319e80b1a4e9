//! The remembered location, stored as a small hand-editable TOML file.
//!
//! Only four flat keys are involved, so the file is read and written here. The
//! coordinates stay text: a value counts only if it reads as a floating-point number.
use vstd::prelude::*;

use crate::text::{
    chars_of, is_number_literal, number_literal, owned, push_char, push_str, same_text,
    string_of, trim, trim_end, trim_range, trim_start, is_space, lemma_number_literal_chars,
    lemma_numeric_char_plain, numeric_char, index_of,
};

verus! {

/// The first comment line written at the top of the file.
pub const HEADER_LINE_1: &'static str = "# tenki — the location you picked with [l].";

/// The second comment line.
pub const HEADER_LINE_2: &'static str = "# Edit the coordinates by hand, or delete this file";

/// The third comment line.
pub const HEADER_LINE_3: &'static str = "# (or run `tenki --forget`) to go back to IP detection.";

/// A location as the file holds it; the coordinates are number literals.
#[derive(Debug)]
pub struct SavedLocation {
    pub city: String,
    pub region: String,
    pub latitude: String,
    pub longitude: String,
}

#[verifier::ext_equal]
pub struct SavedView {
    pub city: Seq<char>,
    pub region: Seq<char>,
    pub latitude: Seq<char>,
    pub longitude: Seq<char>,
}

impl View for SavedLocation {
    type V = SavedView;

    open spec fn view(&self) -> SavedView {
        SavedView {
            city: self.city@,
            region: self.region@,
            latitude: self.latitude@,
            longitude: self.longitude@,
        }
    }
}

/// `c` as it stands inside a quoted value: backslash and quote get a backslash.
pub open spec fn escape_char(c: char) -> Seq<char> {
    if c == '\\' || c == '"' {
        seq!['\\', c]
    } else {
        seq![c]
    }
}

pub open spec fn escaped(s: Seq<char>) -> Seq<char>
    decreases s.len(),
{
    if s.len() == 0 {
        Seq::empty()
    } else {
        escape_char(s[0]) + escaped(s.drop_first())
    }
}

/// `s` in double quotes, with backslashes and quotes escaped.
pub open spec fn quoted(s: Seq<char>) -> Seq<char> {
    seq!['"'] + escaped(s) + seq!['"']
}

/// `s` with each backslash dropped and the character after it kept as it is; a
/// backslash at the very end stays.
pub open spec fn unescaped(s: Seq<char>) -> Seq<char>
    decreases s.len(),
{
    if s.len() == 0 {
        Seq::empty()
    } else if s[0] == '\\' {
        if s.len() >= 2 {
            seq![s[1]] + unescaped(s.skip(2))
        } else {
            seq!['\\']
        }
    } else {
        seq![s[0]] + unescaped(s.drop_first())
    }
}

/// `t` without one pair of surrounding double quotes, if it has them.
pub open spec fn without_quotes(t: Seq<char>) -> Seq<char> {
    if t.len() >= 2 && t[0] == '"' && t.last() == '"' {
        t.subrange(1, t.len() - 1)
    } else {
        t
    }
}

/// A value as written, read back: trimmed, unquoted, unescaped.
pub open spec fn unquoted(v: Seq<char>) -> Seq<char> {
    unescaped(without_quotes(trim(v)))
}

/// A numeric value: the text before any `#` comment, trimmed, if it reads as a number.
pub open spec fn number_value(v: Seq<char>) -> Option<Seq<char>> {
    let t = trim(v.take(index_of(v, '#') as int));
    if is_number_literal(t) {
        Some(t)
    } else {
        None
    }
}

/// The settings gathered so far while reading the file.
#[verifier::ext_equal]
pub struct ConfigFields {
    pub city: Option<Seq<char>>,
    pub region: Seq<char>,
    pub latitude: Option<Seq<char>>,
    pub longitude: Option<Seq<char>>,
}

pub open spec fn no_fields() -> ConfigFields {
    ConfigFields { city: None, region: Seq::empty(), latitude: None, longitude: None }
}

/// What a `key = value` setting does: a known key takes the value.
pub open spec fn apply_setting(f: ConfigFields, key: Seq<char>, value: Seq<char>) -> ConfigFields {
    if key == "city"@ {
        ConfigFields { city: Some(unquoted(value)), ..f }
    } else if key == "region"@ {
        ConfigFields { region: unquoted(value), ..f }
    } else if key == "latitude"@ {
        ConfigFields { latitude: number_value(value), ..f }
    } else if key == "longitude"@ {
        ConfigFields { longitude: number_value(value), ..f }
    } else {
        f
    }
}

/// What one trimmed line does: blank lines, `#` comments and `[section]` headers are
/// skipped, as are lines without `=`; otherwise the trimmed text before the first `=`
/// is the key and the rest the value.
pub open spec fn apply_line(f: ConfigFields, line: Seq<char>) -> ConfigFields {
    if line.len() == 0 || line[0] == '#' || line[0] == '[' {
        f
    } else {
        let k = index_of(line, '=') as int;
        if k == line.len() {
            f
        } else {
            apply_setting(f, trim(line.take(k)), line.skip(k + 1))
        }
    }
}

/// Reading proceeds character by character: the settings so far, and the current line.
pub open spec fn scan_from(st: (ConfigFields, Seq<char>), text: Seq<char>) -> (ConfigFields, Seq<char>)
    decreases text.len(),
{
    if text.len() == 0 {
        st
    } else {
        let (f, cur) = scan_from(st, text.drop_last());
        if text.last() == '\n' {
            (apply_line(f, trim(cur)), Seq::empty())
        } else {
            (f, cur.push(text.last()))
        }
    }
}

/// All the settings of a file: each line in turn, the last one too.
pub open spec fn config_fields(text: Seq<char>) -> ConfigFields {
    let (f, cur) = scan_from((no_fields(), Seq::empty()), text);
    apply_line(f, trim(cur))
}

/// The name given to a saved location without one.
pub open spec fn unnamed() -> Seq<char> {
    "Saved location"@
}

/// The location a file holds: coordinates are the part it cannot do without.
pub open spec fn parsed_location(text: Seq<char>) -> Option<SavedView> {
    let f = config_fields(text);
    if f.latitude is Some && f.longitude is Some {
        Some(
            SavedView {
                city: match f.city {
                    Some(c) => if c.len() > 0 {
                        c
                    } else {
                        unnamed()
                    },
                    None => unnamed(),
                },
                region: f.region,
                latitude: f.latitude->0,
                longitude: f.longitude->0,
            },
        )
    } else {
        None
    }
}

/// The file written for a location.
pub open spec fn rendered(l: SavedView) -> Seq<char> {
    HEADER_LINE_1@ + "\n"@ + HEADER_LINE_2@ + "\n"@ + HEADER_LINE_3@ + "\n"@
        + "city = "@ + quoted(l.city) + "\n"@
        + "region = "@ + quoted(l.region) + "\n"@
        + "latitude = "@ + l.latitude + "\n"@
        + "longitude = "@ + l.longitude + "\n"@
}

/// `v` in double quotes, with backslashes and quotes escaped.
pub fn quote(v: &str) -> (r: String)
    ensures
        r@ == quoted(v@),
{
    let s = chars_of(v);
    let mut out = String::new();
    push_char(&mut out, '"');
    let mut i: usize = 0;
    assert(s@.skip(0) =~= s@);
    while i < s.len()
        invariant
            i <= s@.len(),
            seq!['"'] + escaped(s@) == out@ + escaped(s@.skip(i as int)),
        decreases s.len() - i,
    {
        let c = s[i];
        assert(s@.skip(i as int).drop_first() =~= s@.skip(i + 1));
        if c == '\\' || c == '"' {
            push_char(&mut out, '\\');
        }
        push_char(&mut out, c);
        assert(out@ + escaped(s@.skip(i + 1)) =~= seq!['"'] + escaped(s@));
        i = i + 1;
    }
    assert(s@.skip(i as int) =~= Seq::<char>::empty());
    push_char(&mut out, '"');
    assert(out@ =~= quoted(v@));
    out
}

/// A value as written, read back: trimmed, unquoted, unescaped.
pub fn unquote(v: &str) -> (r: String)
    ensures
        r@ == unquoted(v@),
{
    let s = chars_of(v);
    let (a, b) = trim_range(s.as_slice());
    let (from, to) = if b - a >= 2 && s[a] == '"' && s[b - 1] == '"' {
        (a + 1, b - 1)
    } else {
        (a, b)
    };
    let ghost m = s@.subrange(from as int, to as int);
    assert(m =~= without_quotes(trim(v@)));
    let mut out = String::new();
    let mut i = from;
    assert(m.skip(0) =~= m);
    while i < to
        invariant
            from <= i <= to <= s@.len(),
            m == s@.subrange(from as int, to as int),
            unescaped(m) == out@ + unescaped(m.skip(i - from)),
        decreases to - i,
    {
        let ghost rest = m.skip(i - from);
        assert(rest[0] == s@[i as int]);
        if s[i] == '\\' && i + 1 < to {
            assert(rest[1] == s@[i + 1]);
            assert(rest.skip(2) =~= m.skip(i + 2 - from));
            push_char(&mut out, s[i + 1]);
            i = i + 2;
        } else {
            push_char(&mut out, s[i]);
            assert(rest.drop_first() =~= m.skip(i + 1 - from));
            i = i + 1;
        }
    }
    assert(m.skip(i - from) =~= Seq::<char>::empty());
    out
}

/// A numeric value: the text before any `#` comment, trimmed, if it reads as a number.
pub fn number(v: &str) -> (r: Option<String>)
    ensures
        opt_text(r) == number_value(v@),
{
    let s = chars_of(v);
    let mut k: usize = 0;
    assert(s@.skip(0) =~= s@);
    while k < s.len() && s[k] != '#'
        invariant
            k <= s@.len(),
            s@ == v@,
            index_of(s@, '#') == k + index_of(s@.skip(k as int), '#'),
        decreases s.len() - k,
    {
        assert(s@.skip(k as int).drop_first() =~= s@.skip(k + 1));
        k = k + 1;
    }
    proof {
        if k < s.len() {
            assert(s@.skip(k as int)[0] == s@[k as int]);
        }
    }
    let head = string_of(s.as_slice(), 0, k);
    let hv = chars_of(head.as_str());
    let (a, b) = trim_range(hv.as_slice());
    assert(s@.take(k as int) =~= s@.subrange(0, k as int));
    let t: Vec<char> = slice_to_vec(hv.as_slice(), a, b);
    if number_literal(t.as_slice()) {
        Some(string_of(t.as_slice(), 0, t.len()))
    } else {
        None
    }
}

fn slice_to_vec(v: &[char], from: usize, to: usize) -> (r: Vec<char>)
    requires
        from <= to <= v@.len(),
    ensures
        r@ == v@.subrange(from as int, to as int),
{
    let mut r: Vec<char> = Vec::new();
    let mut i = from;
    while i < to
        invariant
            from <= i <= to <= v@.len(),
            r@ == v@.subrange(from as int, i as int),
        decreases to - i,
    {
        r.push(v[i]);
        assert(r@ =~= v@.subrange(from as int, i + 1));
        i = i + 1;
    }
    r
}

pub open spec fn opt_text(o: Option<String>) -> Option<Seq<char>> {
    match o {
        Some(s) => Some(s@),
        None => None,
    }
}

/// The settings read so far, as values.
struct Fields {
    city: Option<String>,
    region: String,
    latitude: Option<String>,
    longitude: Option<String>,
}

impl Fields {
    spec fn view(&self) -> ConfigFields {
        ConfigFields {
            city: opt_text(self.city),
            region: self.region@,
            latitude: opt_text(self.latitude),
            longitude: opt_text(self.longitude),
        }
    }

    /// Takes one line into account; `line[from..to]` is already trimmed.
    fn take_line(&mut self, line: &[char], from: usize, to: usize)
        requires
            from <= to <= line@.len(),
        ensures
            final(self).view() == apply_line(old(self).view(), line@.subrange(from as int, to as int)),
    {
        let ghost l = line@.subrange(from as int, to as int);
        if from == to || line[from] == '#' || line[from] == '[' {
            return;
        }
        let mut k = from;
        assert(l.skip(0) =~= l);
        while k < to && line[k] != '='
            invariant
                from <= k <= to <= line@.len(),
                l == line@.subrange(from as int, to as int),
                index_of(l, '=') == (k - from) + index_of(l.skip(k - from), '='),
            decreases to - k,
        {
            assert(l.skip(k - from).drop_first() =~= l.skip(k + 1 - from));
            assert(l.skip(k - from)[0] == line@[k as int]);
            k = k + 1;
        }
        proof {
            if k < to {
                assert(l.skip(k - from)[0] == line@[k as int]);
            }
        }
        if k == to {
            return;
        }
        let key_chars = slice_to_vec(line, from, k);
        let (ka, kb) = trim_range(key_chars.as_slice());
        let key = slice_to_vec(key_chars.as_slice(), ka, kb);
        assert(key_chars@ =~= l.take(k - from));
        let value = string_of(line, k + 1, to);
        assert(value@ =~= l.skip(k - from + 1));
        if same_text(key.as_slice(), "city") {
            self.city = Some(unquote(value.as_str()));
        } else if same_text(key.as_slice(), "region") {
            self.region = unquote(value.as_str());
        } else if same_text(key.as_slice(), "latitude") {
            self.latitude = number(value.as_str());
        } else if same_text(key.as_slice(), "longitude") {
            self.longitude = number(value.as_str());
        }
    }
}


pub open spec fn opt_saved(o: Option<SavedLocation>) -> Option<SavedView> {
    match o {
        Some(l) => Some(l@),
        None => None,
    }
}

/// The saved location that `text` holds, or `None` if it lacks coordinates.
pub fn parse(text: &str) -> (r: Option<SavedLocation>)
    ensures
        opt_saved(r) == parsed_location(text@),
{
    let s = chars_of(text);
    let mut f = Fields { city: None, region: String::new(), latitude: None, longitude: None };
    let mut line_start: usize = 0;
    let mut i: usize = 0;
    while i < s.len()
        invariant
            line_start <= i <= s@.len(),
            s@ == text@,
            scan_from((no_fields(), Seq::empty()), s@.take(i as int)) == (f.view(), s@.subrange(line_start as int, i as int)),
        decreases s.len() - i,
    {
        assert(s@.take(i + 1).drop_last() =~= s@.take(i as int));
        assert(s@.take(i + 1).last() == s@[i as int]);
        if s[i] == '\n' {
            let line = slice_to_vec(s.as_slice(), line_start, i);
            let (a, b) = trim_range(line.as_slice());
            f.take_line(line.as_slice(), a, b);
            line_start = i + 1;
            assert(s@.subrange(line_start as int, i + 1) =~= Seq::<char>::empty());
        } else {
            assert(s@.subrange(line_start as int, i + 1) =~= s@.subrange(line_start as int, i as int).push(s@[i as int]));
        }
        i = i + 1;
    }
    assert(s@.take(s.len() as int) =~= s@);
    let line = slice_to_vec(s.as_slice(), line_start, s.len());
    let (a, b) = trim_range(line.as_slice());
    f.take_line(line.as_slice(), a, b);
    match (f.latitude, f.longitude) {
        (Some(latitude), Some(longitude)) => {
            let city = match f.city {
                Some(c) => if c.as_str().is_empty() {
                    owned("Saved location")
                } else {
                    c
                },
                None => owned("Saved location"),
            };
            Some(SavedLocation { city, region: f.region, latitude, longitude })
        },
        _ => None,
    }
}

/// The file written for `location`.
pub fn render(location: &SavedLocation) -> (r: String)
    ensures
        r@ == rendered(location@),
{
    let mut r = owned(HEADER_LINE_1);
    push_str(&mut r, "\n");
    push_str(&mut r, HEADER_LINE_2);
    push_str(&mut r, "\n");
    push_str(&mut r, HEADER_LINE_3);
    push_str(&mut r, "\n");
    push_str(&mut r, "city = ");
    let q = quote(location.city.as_str());
    push_str(&mut r, q.as_str());
    push_str(&mut r, "\n");
    push_str(&mut r, "region = ");
    let q = quote(location.region.as_str());
    push_str(&mut r, q.as_str());
    push_str(&mut r, "\n");
    push_str(&mut r, "latitude = ");
    push_str(&mut r, location.latitude.as_str());
    push_str(&mut r, "\n");
    push_str(&mut r, "longitude = ");
    push_str(&mut r, location.longitude.as_str());
    push_str(&mut r, "\n");
    r
}


/// No character of `s` is a line break.
pub open spec fn single_line(s: Seq<char>) -> bool {
    forall|i: int| 0 <= i < s.len() ==> #[trigger] s[i] != '\n'
}

spec fn single_line_from(s: Seq<char>, i: nat) -> bool
    decreases s.len() - i,
{
    if i >= s.len() {
        true
    } else {
        s[i as int] != '\n' && single_line_from(s, i + 1)
    }
}

proof fn lemma_single_line_from(s: Seq<char>, i: nat)
    requires
        single_line_from(s, i),
    ensures
        forall|j: int| i <= j < s.len() ==> #[trigger] s[j] != '\n',
    decreases s.len() - i,
{
    if i < s.len() {
        lemma_single_line_from(s, i + 1);
    }
}

proof fn lemma_scan_concat(st: (ConfigFields, Seq<char>), a: Seq<char>, b: Seq<char>)
    ensures
        scan_from(st, a + b) == scan_from(scan_from(st, a), b),
    decreases b.len(),
{
    if b.len() == 0 {
        assert(a + b =~= a);
    } else {
        assert((a + b).drop_last() =~= a + b.drop_last());
        assert((a + b).last() == b.last());
        lemma_scan_concat(st, a, b.drop_last());
    }
}

proof fn lemma_scan_plain(f: ConfigFields, cur: Seq<char>, line: Seq<char>)
    requires
        single_line(line),
    ensures
        scan_from((f, cur), line) == (f, cur + line),
    decreases line.len(),
{
    if line.len() == 0 {
        assert(cur + line =~= cur);
    } else {
        lemma_scan_plain(f, cur, line.drop_last());
        assert(cur + line.drop_last() + seq![line.last()] =~= cur + line);
        assert((cur + line.drop_last()).push(line.last()) =~= cur + line);
    }
}

/// Reading one line and its line break applies that line.
proof fn lemma_scan_line(f: ConfigFields, line: Seq<char>)
    requires
        single_line(line),
    ensures
        scan_from((f, Seq::empty()), line + seq!['\n']) == (apply_line(f, trim(line)), Seq::<char>::empty()),
{
    lemma_scan_concat((f, Seq::empty()), line, seq!['\n']);
    lemma_scan_plain(f, Seq::empty(), line);
    assert(Seq::<char>::empty() + line =~= line);
    assert(seq!['\n'].drop_last() =~= Seq::<char>::empty());
    assert(seq!['\n'].last() == '\n');
    reveal_with_fuel(scan_from, 2);
}

/// Text that starts and ends with something other than whitespace is its own trim.
proof fn lemma_trim_solid(s: Seq<char>)
    requires
        s.len() > 0,
        !is_space(s[0]),
        !is_space(s.last()),
    ensures
        trim(s) == s,
{
}

/// One space in front of such text is trimmed away.
proof fn lemma_trim_spaced(s: Seq<char>)
    requires
        s.len() > 0,
        !is_space(s[0]),
        !is_space(s.last()),
    ensures
        trim(seq![' '] + s) == s,
{
    assert((seq![' '] + s).drop_first() =~= s);
    assert(is_space(' '));
    reveal_with_fuel(trim_start, 2);
}

proof fn lemma_unescape_escaped(s: Seq<char>)
    ensures
        unescaped(escaped(s)) == s,
    decreases s.len(),
{
    if s.len() > 0 {
        lemma_unescape_escaped(s.drop_first());
        let rest = escaped(s.drop_first());
        let c = s[0];
        if c == '\\' || c == '"' {
            assert((seq!['\\', c] + rest).skip(2) =~= rest);
            assert((seq!['\\', c] + rest)[0] == '\\');
            assert((seq!['\\', c] + rest)[1] == c);
        } else {
            assert((seq![c] + rest).drop_first() =~= rest);
            assert((seq![c] + rest)[0] == c);
        }
        assert(seq![c] + s.drop_first() =~= s);
    }
}

proof fn lemma_escaped_single_line(s: Seq<char>)
    requires
        single_line(s),
    ensures
        single_line(escaped(s)),
    decreases s.len(),
{
    if s.len() > 0 {
        assert(single_line(s.drop_first())) by {
            assert forall|i: int| 0 <= i < s.drop_first().len() implies #[trigger] s.drop_first()[i] != '\n' by {
                assert(s.drop_first()[i] == s[i + 1]);
            }
        }
        lemma_escaped_single_line(s.drop_first());
        let e = escape_char(s[0]);
        let rest = escaped(s.drop_first());
        assert forall|i: int| 0 <= i < (e + rest).len() implies #[trigger] (e + rest)[i] != '\n' by {
            if i >= e.len() {
                assert((e + rest)[i] == rest[i - e.len()]);
            }
        }
    }
}

proof fn lemma_literal_facts(s: Seq<char>)
    requires
        is_number_literal(s),
    ensures
        s.len() > 0,
        !is_space(s[0]),
        !is_space(s.last()),
        single_line(s),
        index_of(s, '#') == s.len(),
{
    lemma_number_literal_chars(s);
    lemma_numeric_char_plain(s[0]);
    lemma_numeric_char_plain(s.last());
    assert forall|i: int| 0 <= i < s.len() implies #[trigger] s[i] != '\n' by {
        lemma_numeric_char_plain(s[i]);
    }
    lemma_no_hash(s);
}

proof fn lemma_no_hash(s: Seq<char>)
    requires
        forall|i: int| 0 <= i < s.len() ==> numeric_char(#[trigger] s[i]),
    ensures
        index_of(s, '#') == s.len(),
    decreases s.len(),
{
    if s.len() > 0 {
        lemma_numeric_char_plain(s[0]);
        assert forall|i: int| 0 <= i < s.drop_first().len() implies numeric_char(#[trigger] s.drop_first()[i]) by {
            assert(s.drop_first()[i] == s[i + 1]);
        }
        lemma_no_hash(s.drop_first());
    }
}


proof fn lemma_index_of_concat(a: Seq<char>, b: Seq<char>, c: char)
    requires
        forall|i: int| 0 <= i < a.len() ==> #[trigger] a[i] != c,
    ensures
        index_of(a + b, c) == a.len() + index_of(b, c),
    decreases a.len(),
{
    if a.len() == 0 {
        assert(a + b =~= b);
    } else {
        assert((a + b)[0] == a[0]);
        assert((a + b).drop_first() =~= a.drop_first() + b);
        assert forall|i: int| 0 <= i < a.drop_first().len() implies #[trigger] a.drop_first()[i] != c by {
            assert(a.drop_first()[i] == a[i + 1]);
        }
        lemma_index_of_concat(a.drop_first(), b, c);
    }
}

/// A comment line and its line break leave the settings as they were.
proof fn lemma_comment_line(f: ConfigFields, h: Seq<char>)
    requires
        h.len() > 0,
        h[0] == '#',
        !is_space(h.last()),
        single_line(h),
    ensures
        scan_from((f, Seq::empty()), h + seq!['\n']) == (f, Seq::<char>::empty()),
{
    lemma_scan_line(f, h);
    lemma_trim_solid(h);
}

/// A small-letter word.
pub open spec fn is_key_word(k: Seq<char>) -> bool {
    k.len() > 0 && forall|i: int| 0 <= i < k.len() ==> 'a' <= #[trigger] k[i] && k[i] <= 'z'
}

/// A `key = value` line and its line break apply that setting.
proof fn lemma_setting_line(f: ConfigFields, k: Seq<char>, v: Seq<char>)
    requires
        is_key_word(k),
        v.len() > 0,
        !is_space(v.last()),
        single_line(v),
    ensures
        scan_from((f, Seq::empty()), k + seq![' ', '=', ' '] + v + seq!['\n'])
            == (apply_setting(f, k, seq![' '] + v), Seq::<char>::empty()),
{
    let line = k + seq![' ', '=', ' '] + v;
    assert(single_line(line)) by {
        assert forall|i: int| 0 <= i < line.len() implies #[trigger] line[i] != '\n' by {
            if i < k.len() {
                assert(line[i] == k[i]);
            } else if i >= k.len() + 3 {
                assert(line[i] == v[i - k.len() - 3]);
            }
        }
    }
    lemma_scan_line(f, line);
    assert(line[0] == k[0]);
    assert(line.last() == v.last());
    lemma_trim_solid(line);
    let eq = k + seq![' ']; 
    assert(line =~= k + (seq![' ', '=', ' '] + v));
    lemma_index_of_concat(k, seq![' ', '=', ' '] + v, '=');
    assert((seq![' ', '=', ' '] + v).drop_first()[0] == '=');
    reveal_with_fuel(index_of, 2);
    assert(index_of(line, '=') == k.len() + 1);
    assert(line.take(k.len() + 1int) =~= eq);
    assert(line.skip(k.len() + 2int) =~= seq![' '] + v);
    assert(eq.drop_last() =~= k);
    reveal_with_fuel(trim_end, 2);
    assert(trim(eq) == k);
}

/// What a saved location reads back as: the same, with an empty name replaced.
pub open spec fn read_back(l: SavedView) -> SavedView {
    SavedView {
        city: if l.city.len() > 0 {
            l.city
        } else {
            unnamed()
        },
        ..l
    }
}

/// Writing a location and reading the file back gives the location again, as long as
/// its names hold no line break and its coordinates read as numbers. A location
/// without a name reads back as "Saved location".
pub proof fn lemma_render_parse_round_trip(l: SavedView)
    requires
        single_line(l.city),
        single_line(l.region),
        is_number_literal(l.latitude),
        is_number_literal(l.longitude),
    ensures
        parsed_location(rendered(l)) == Some(read_back(l)),
{
    reveal_strlit("# tenki — the location you picked with [l].");
    reveal_strlit("# Edit the coordinates by hand, or delete this file");
    reveal_strlit("# (or run `tenki --forget`) to go back to IP detection.");
    reveal_strlit("\n");
    reveal_strlit("city = ");
    reveal_strlit("region = ");
    reveal_strlit("latitude = ");
    reveal_strlit("longitude = ");
    reveal_strlit("city");
    reveal_strlit("region");
    reveal_strlit("latitude");
    reveal_strlit("longitude");
    let h1 = HEADER_LINE_1@;
    let h2 = HEADER_LINE_2@;
    let h3 = HEADER_LINE_3@;
    reveal_with_fuel(single_line_from, 60);
    assert(single_line_from(h1, 0));
    assert(single_line_from(h2, 0));
    assert(single_line_from(h3, 0));
    lemma_single_line_from(h1, 0);
    lemma_single_line_from(h2, 0);
    lemma_single_line_from(h3, 0);
    let nl = seq!['\n'];
    assert("\n"@ =~= nl);
    let sep = seq![' ', '=', ' '];
    let kc = "city"@;
    let kr = "region"@;
    let klat = "latitude"@;
    let klon = "longitude"@;
    assert("city = "@ =~= kc + sep);
    assert("region = "@ =~= kr + sep);
    assert("latitude = "@ =~= klat + sep);
    assert("longitude = "@ =~= klon + sep);
    assert(is_key_word(kc));
    assert(is_key_word(kr));
    assert(is_key_word(klat));
    assert(is_key_word(klon));
    let qc = quoted(l.city);
    let qr = quoted(l.region);
    lemma_escaped_single_line(l.city);
    lemma_escaped_single_line(l.region);
    assert(single_line(qc)) by {
        assert forall|i: int| 0 <= i < qc.len() implies #[trigger] qc[i] != '\n' by {
            if 0 < i < qc.len() - 1 {
                assert(qc[i] == escaped(l.city)[i - 1]);
            }
        }
    }
    assert(single_line(qr)) by {
        assert forall|i: int| 0 <= i < qr.len() implies #[trigger] qr[i] != '\n' by {
            if 0 < i < qr.len() - 1 {
                assert(qr[i] == escaped(l.region)[i - 1]);
            }
        }
    }
    lemma_literal_facts(l.latitude);
    lemma_literal_facts(l.longitude);
    let a1 = h1 + nl;
    let a2 = h2 + nl;
    let a3 = h3 + nl;
    let a4 = kc + sep + qc + nl;
    let a5 = kr + sep + qr + nl;
    let a6 = klat + sep + l.latitude + nl;
    let a7 = klon + sep + l.longitude + nl;
    assert(rendered(l) =~= a1 + a2 + a3 + a4 + a5 + a6 + a7);
    let st0 = (no_fields(), Seq::<char>::empty());
    lemma_scan_concat(st0, a1 + a2 + a3 + a4 + a5 + a6, a7);
    lemma_scan_concat(st0, a1 + a2 + a3 + a4 + a5, a6);
    lemma_scan_concat(st0, a1 + a2 + a3 + a4, a5);
    lemma_scan_concat(st0, a1 + a2 + a3, a4);
    lemma_scan_concat(st0, a1 + a2, a3);
    lemma_scan_concat(st0, a1, a2);
    reveal_with_fuel(scan_from, 1);
    lemma_comment_line(no_fields(), h1);
    lemma_comment_line(no_fields(), h2);
    lemma_comment_line(no_fields(), h3);
    let f3 = no_fields();
    lemma_setting_line(f3, kc, qc);
    let f4 = apply_setting(f3, kc, seq![' '] + qc);
    lemma_setting_line(f4, kr, qr);
    let f5 = apply_setting(f4, kr, seq![' '] + qr);
    lemma_setting_line(f5, klat, l.latitude);
    let f6 = apply_setting(f5, klat, seq![' '] + l.latitude);
    lemma_setting_line(f6, klon, l.longitude);
    let f7 = apply_setting(f6, klon, seq![' '] + l.longitude);
    // the quoted names read back as themselves
    lemma_trim_spaced(qc);
    lemma_trim_spaced(qr);
    assert(qc.subrange(1, qc.len() - 1) =~= escaped(l.city));
    assert(qr.subrange(1, qr.len() - 1) =~= escaped(l.region));
    lemma_unescape_escaped(l.city);
    lemma_unescape_escaped(l.region);
    assert(unquoted(seq![' '] + qc) == l.city);
    assert(unquoted(seq![' '] + qr) == l.region);
    // the coordinates read back as themselves
    lemma_trim_spaced(l.latitude);
    lemma_trim_spaced(l.longitude);
    let vl = seq![' '] + l.latitude;
    let vn = seq![' '] + l.longitude;
    lemma_index_of_concat(seq![' '], l.latitude, '#');
    lemma_index_of_concat(seq![' '], l.longitude, '#');
    assert(vl.take(vl.len() as int) =~= vl);
    assert(vn.take(vn.len() as int) =~= vn);
    assert(number_value(vl) == Some(l.latitude));
    assert(number_value(vn) == Some(l.longitude));
    assert(f7 == ConfigFields {
        city: Some(l.city),
        region: l.region,
        latitude: Some(l.latitude),
        longitude: Some(l.longitude),
    });
    assert(trim(Seq::<char>::empty()) =~= Seq::<char>::empty());
    assert(config_fields(rendered(l)) == f7);
}

} // verus!
