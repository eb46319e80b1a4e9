//! Character-level helpers on strings: Unicode whitespace, trimming, building strings.
use vstd::prelude::*;

verus! {

/// The Unicode `White_Space` characters, the set that `char::is_whitespace` and `str::trim` use.
pub open spec fn is_space(c: char) -> bool {
    let n = c as u32;
    (0x09 <= n && n <= 0x0d) || n == 0x20 || n == 0x85 || n == 0xa0 || n == 0x1680
        || (0x2000 <= n && n <= 0x200a) || n == 0x2028 || n == 0x2029 || n == 0x202f
        || n == 0x205f || n == 0x3000
}

/// Whether `c` is Unicode whitespace.
pub fn is_whitespace(c: char) -> (b: bool)
    ensures
        b == is_space(c),
{
    let n = c as u32;
    (0x09 <= n && n <= 0x0d) || n == 0x20 || n == 0x85 || n == 0xa0 || n == 0x1680
        || (0x2000 <= n && n <= 0x200a) || n == 0x2028 || n == 0x2029 || n == 0x202f
        || n == 0x205f || n == 0x3000
}

/// `s` without its leading whitespace.
pub open spec fn trim_start(s: Seq<char>) -> Seq<char>
    decreases s.len(),
{
    if s.len() > 0 && is_space(s[0]) {
        trim_start(s.drop_first())
    } else {
        s
    }
}

/// `s` without its trailing whitespace.
pub open spec fn trim_end(s: Seq<char>) -> Seq<char>
    decreases s.len(),
{
    if s.len() > 0 && is_space(s.last()) {
        trim_end(s.drop_last())
    } else {
        s
    }
}

/// `s` without leading and trailing whitespace.
pub open spec fn trim(s: Seq<char>) -> Seq<char> {
    trim_end(trim_start(s))
}

/// Whether every character of `s` is whitespace.
pub open spec fn all_space(s: Seq<char>) -> bool {
    forall|i: int| 0 <= i < s.len() ==> is_space(#[trigger] s[i])
}

/// Trimming the front leaves nothing exactly when the text is all whitespace.
pub proof fn lemma_trim_start_empty(s: Seq<char>)
    ensures
        (trim_start(s).len() == 0) == all_space(s),
    decreases s.len(),
{
    if s.len() > 0 && is_space(s[0]) {
        lemma_trim_start_empty(s.drop_first());
        if all_space(s.drop_first()) {
            assert forall|i: int| 0 <= i < s.len() implies is_space(#[trigger] s[i]) by {
                if i > 0 {
                    assert(s[i] == s.drop_first()[i - 1]);
                }
            }
        } else {
            let k = choose|k: int| 0 <= k < s.drop_first().len() && !is_space(#[trigger] s.drop_first()[k]);
            assert(s[k + 1] == s.drop_first()[k]);
        }
    }
}

/// Trimming the back leaves nothing exactly when the text is all whitespace.
pub proof fn lemma_trim_end_empty(s: Seq<char>)
    ensures
        (trim_end(s).len() == 0) == all_space(s),
    decreases s.len(),
{
    if s.len() > 0 && is_space(s.last()) {
        lemma_trim_end_empty(s.drop_last());
        if all_space(s.drop_last()) {
            assert forall|i: int| 0 <= i < s.len() implies is_space(#[trigger] s[i]) by {
                if i < s.len() - 1 {
                    assert(s[i] == s.drop_last()[i]);
                }
            }
        } else {
            let k = choose|k: int| 0 <= k < s.drop_last().len() && !is_space(#[trigger] s.drop_last()[k]);
            assert(s[k] == s.drop_last()[k]);
        }
    }
}

/// Trimming leaves nothing exactly when the text is all whitespace.
pub proof fn lemma_trim_empty(s: Seq<char>)
    ensures
        (trim(s).len() == 0) == all_space(s),
{
    lemma_trim_start_empty(s);
    lemma_trim_end_empty(trim_start(s));
    if all_space(s) {
        assert(trim_start(s).len() == 0);
    } else {
        assert(trim_start(s).len() != 0);
        if trim(s).len() == 0 {
            assert(all_space(trim_start(s)));
            lemma_trim_start_first(s);
            assert(is_space(trim_start(s)[0]));
            assert(false);
        }
    }
}

/// A nonempty trim_start begins with a character that is not whitespace.
pub proof fn lemma_trim_start_first(s: Seq<char>)
    ensures
        trim_start(s).len() > 0 ==> !is_space(trim_start(s)[0]),
    decreases s.len(),
{
    if s.len() > 0 && is_space(s[0]) {
        lemma_trim_start_first(s.drop_first());
    }
}

/// The characters of `s`, in order.
pub fn chars_of(s: &str) -> (v: Vec<char>)
    ensures
        v@ == s@,
{
    let mut v: Vec<char> = Vec::new();
    for c in it: s.chars()
        invariant
            v@ == it.seq().take(it.index() as int),
            it.seq() == s@,
    {
        v.push(c);
    }
    v
}

/// The index range `[start, end)` of `v` that is left after trimming whitespace on both ends.
pub fn trim_range(v: &[char]) -> (r: (usize, usize))
    ensures
        r.0 <= r.1 <= v@.len(),
        v@.subrange(r.0 as int, r.1 as int) == trim(v@),
        trim_start(v@) == v@.subrange(r.0 as int, v@.len() as int),
{
    let n = v.len();
    let mut i: usize = 0;
    assert(v@.subrange(0, n as int) =~= v@);
    while i < n && is_whitespace(v[i])
        invariant
            i <= n == v@.len(),
            trim_start(v@) == trim_start(v@.subrange(i as int, n as int)),
        decreases n - i,
    {
        assert(v@.subrange(i as int, n as int).drop_first() =~= v@.subrange(i + 1, n as int));
        i = i + 1;
    }
    let mut j: usize = n;
    while j > i && is_whitespace(v[j - 1])
        invariant
            i <= j <= n == v@.len(),
            trim(v@) == trim_end(v@.subrange(i as int, j as int)),
            trim_start(v@) == v@.subrange(i as int, n as int),
        decreases j,
    {
        assert(v@.subrange(i as int, j as int).drop_last() =~= v@.subrange(i as int, j - 1));
        j = j - 1;
    }
    (i, j)
}

/// Appends `c` to `s` by calling std's `String::push`, which vstd leaves unspecified.
/// The contract claims only what that method's documentation says: the characters of
/// the string afterwards are the ones before, followed by `c`.
#[verifier::external_body]
pub(crate) fn push_char(s: &mut String, c: char)
    ensures
        final(s)@ == old(s)@.push(c),
{
    s.push(c);
}

/// The string made of the characters `v[from..to]`.
pub fn string_of(v: &[char], from: usize, to: usize) -> (s: String)
    requires
        from <= to <= v@.len(),
    ensures
        s@ == v@.subrange(from as int, to as int),
{
    let mut s = String::new();
    let mut i = from;
    while i < to
        invariant
            from <= i <= to <= v@.len(),
            s@ == v@.subrange(from as int, i as int),
        decreases to - i,
    {
        push_char(&mut s, v[i]);
        assert(v@.subrange(from as int, i + 1) =~= v@.subrange(from as int, i as int).push(v@[i as int]));
        i = i + 1;
    }
    s
}

/// `s` without leading and trailing whitespace.
pub fn trimmed(s: &str) -> (t: String)
    ensures
        t@ == trim(s@),
{
    let v = chars_of(s);
    let (a, b) = trim_range(v.as_slice());
    string_of(v.as_slice(), a, b)
}


/// The decimal digit `d` (for `d < 10`) as a character.
pub open spec fn digit_char(d: nat) -> char {
    (48 + d) as char
}

/// The decimal representation of `n`, as `Display` writes it.
pub open spec fn decimal(n: nat) -> Seq<char>
    decreases n,
{
    if n < 10 {
        seq![digit_char(n)]
    } else {
        decimal(n / 10).push(digit_char(n % 10))
    }
}

/// `n` written in decimal.
pub fn decimal_string(n: u64) -> (s: String)
    ensures
        s@ == decimal(n as nat),
    decreases n,
{
    if n < 10 {
        let mut s = String::new();
        push_char(&mut s, ((n as u8) + 48) as char);
        s
    } else {
        let mut s = decimal_string(n / 10);
        push_char(&mut s, (((n % 10) as u8) + 48) as char);
        s
    }
}

/// Appends all of `t` to `s`.
pub fn push_str(s: &mut String, t: &str)
    ensures
        final(s)@ == old(s)@ + t@,
{
    let v = chars_of(t);
    let n = v.len();
    let ghost start = s@;
    let mut i: usize = 0;
    while i < n
        invariant
            i <= n == v@.len(),
            v@ == t@,
            s@ == start + v@.take(i as int),
        decreases n - i,
    {
        push_char(s, v[i]);
        assert(v@.take(i + 1) =~= v@.take(i as int).push(v@[i as int]));
        i = i + 1;
    }
    assert(v@.take(n as int) =~= v@);
}

/// A new `String` holding `t`.
pub fn owned(t: &str) -> (s: String)
    ensures
        s@ == t@,
{
    let mut s = String::new();
    push_str(&mut s, t);
    s
}

/// The number of characters (not bytes) in `s`.
pub fn char_count(s: &str) -> (n: usize)
    ensures
        n == s@.len(),
{
    chars_of(s).len()
}


/// Whether the characters `a` spell out exactly `b`.
pub fn same_text(a: &[char], b: &str) -> (r: bool)
    ensures
        r == (a@ == b@),
{
    let w = chars_of(b);
    if a.len() != w.len() {
        return false;
    }
    let mut i: usize = 0;
    while i < a.len()
        invariant
            i <= a@.len() == w@.len(),
            w@ == b@,
            forall|j: int| 0 <= j < i ==> a@[j] == w@[j],
        decreases a.len() - i,
    {
        if a[i] != w[i] {
            return false;
        }
        i = i + 1;
    }
    assert(a@ =~= w@);
    true
}

/// Whether the string `s` is exactly `t`.
pub fn str_is(s: &str, t: &str) -> (r: bool)
    ensures
        r == (s@ == t@),
{
    let v = chars_of(s);
    same_text(v.as_slice(), t)
}

/// An ASCII decimal digit.
pub open spec fn is_digit(c: char) -> bool {
    '0' <= c && c <= '9'
}

/// `c` with an ASCII capital turned into its small letter.
pub open spec fn ascii_lower(c: char) -> char {
    if 'A' <= c && c <= 'Z' {
        ((c as u32) + 32) as char
    } else {
        c
    }
}

fn to_ascii_lower(c: char) -> (r: char)
    ensures
        r == ascii_lower(c),
{
    if 'A' <= c && c <= 'Z' {
        ((c as u8) + 32) as char
    } else {
        c
    }
}

/// `t` equals the small-letter word `w`, ignoring ASCII case.
pub open spec fn is_word(t: Seq<char>, w: Seq<char>) -> bool {
    t.len() == w.len() && forall|i: int| 0 <= i < t.len() ==> ascii_lower(#[trigger] t[i]) == w[i]
}

/// `Digit+ | Digit+ '.' Digit* | Digit* '.' Digit+`: digits with at most one point,
/// and at least one digit.
pub open spec fn is_mantissa(m: Seq<char>) -> bool {
    &&& forall|i: int| 0 <= i < m.len() ==> is_digit(#[trigger] m[i]) || m[i] == '.'
    &&& forall|i: int, j: int| 0 <= i < j < m.len() && #[trigger] m[i] == '.' ==> #[trigger] m[j] != '.'
    &&& exists|i: int| 0 <= i < m.len() && is_digit(#[trigger] m[i])
}

/// `x` without a leading `+` or `-`.
pub open spec fn unsigned_part(x: Seq<char>) -> Seq<char> {
    if x.len() > 0 && (x[0] == '+' || x[0] == '-') {
        x.drop_first()
    } else {
        x
    }
}

/// One or more digits, after an optional sign.
pub open spec fn is_signed_digits(x: Seq<char>) -> bool {
    let d = unsigned_part(x);
    d.len() > 0 && forall|i: int| 0 <= i < d.len() ==> is_digit(#[trigger] d[i])
}

/// The index of the first `e` or `E` in `t`, or its length.
pub open spec fn exponent_start(t: Seq<char>) -> nat
    decreases t.len(),
{
    if t.len() == 0 || ascii_lower(t[0]) == 'e' {
        0
    } else {
        1 + exponent_start(t.drop_first())
    }
}

/// `Number ::= Mantissa Exp?` with `Exp ::= 'e' Sign? Digit+`.
pub open spec fn is_unsigned_number(t: Seq<char>) -> bool {
    let k = exponent_start(t) as int;
    is_mantissa(t.take(k)) && (k == t.len() || is_signed_digits(t.skip(k + 1)))
}

/// The text that `f64::from_str` accepts, as its documentation gives the grammar
/// (letters in any ASCII case): an optional sign, then `inf`, `infinity`, `nan` or a number.
pub open spec fn is_number_literal(s: Seq<char>) -> bool {
    let t = if s.len() > 0 && (s[0] == '+' || s[0] == '-') {
        s.drop_first()
    } else {
        s
    };
    ||| is_word(t, seq!['i', 'n', 'f'])
    ||| is_word(t, seq!['i', 'n', 'f', 'i', 'n', 'i', 't', 'y'])
    ||| is_word(t, seq!['n', 'a', 'n'])
    ||| is_unsigned_number(t)
}

fn word_at(v: &[char], from: usize, w: &[char]) -> (r: bool)
    requires
        from <= v@.len(),
    ensures
        r == is_word(v@.skip(from as int), w@),
{
    if v.len() - from != w.len() {
        return false;
    }
    let ghost t = v@.skip(from as int);
    let mut k: usize = from;
    while k < v.len()
        invariant
            from <= k <= v@.len(),
            t == v@.skip(from as int),
            t.len() == w@.len(),
            forall|j: int| 0 <= j < k - from ==> ascii_lower(#[trigger] t[j]) == w@[j],
        decreases v.len() - k,
    {
        assert(t[k - from] == v@[k as int]);
        if to_ascii_lower(v[k]) != w[k - from] {
            return false;
        }
        k = k + 1;
    }
    true
}

fn mantissa_ok(v: &[char], from: usize, to: usize) -> (r: bool)
    requires
        from <= to <= v@.len(),
    ensures
        r == is_mantissa(v@.subrange(from as int, to as int)),
{
    let ghost m = v@.subrange(from as int, to as int);
    let mut i = from;
    let mut dots: usize = 0;
    let mut digits: bool = false;
    while i < to
        invariant
            from <= i <= to <= v@.len(),
            m == v@.subrange(from as int, to as int),
            dots <= 1,
            forall|j: int| 0 <= j < i - from ==> is_digit(#[trigger] m[j]) || m[j] == '.',
            dots == 0 ==> forall|j: int| 0 <= j < i - from ==> #[trigger] m[j] != '.',
            dots == 1 ==> exists|j: int| 0 <= j < i - from && #[trigger] m[j] == '.',
            forall|a: int, b: int|
                0 <= a < b < i - from && #[trigger] m[a] == '.' ==> #[trigger] m[b] != '.',
            digits == exists|j: int| 0 <= j < i - from && is_digit(#[trigger] m[j]),
        decreases to - i,
    {
        let c = v[i];
        assert(m[i - from] == c);
        if c == '.' {
            if dots == 1 {
                let ghost a = choose|j: int| 0 <= j < i - from && #[trigger] m[j] == '.';
                assert(0 <= a < (i - from) as int && m[a] == '.' && m[i - from] == '.');
                return false;
            }
            dots = 1;
        } else if '0' <= c && c <= '9' {
            digits = true;
        } else {
            return false;
        }
        i = i + 1;
    }
    assert(m.len() == to - from);
    digits
}

fn signed_digits_ok(v: &[char], from: usize) -> (r: bool)
    requires
        from <= v@.len(),
    ensures
        r == is_signed_digits(v@.skip(from as int)),
{
    let ghost x = v@.skip(from as int);
    if from < v.len() {
        assert(x[0] == v@[from as int]);
    }
    let mut i = from;
    if i < v.len() && (v[i] == '+' || v[i] == '-') {
        i = i + 1;
    }
    let ghost d = v@.skip(i as int);
    assert(d =~= unsigned_part(x));
    if i == v.len() {
        assert(d.len() == 0);
        return false;
    }
    let start = i;
    assert(is_signed_digits(x) == (d.len() > 0 && forall|j: int| 0 <= j < d.len() ==> is_digit(#[trigger] d[j])));
    while i < v.len()
        invariant
            start <= i <= v@.len(),
            d == v@.skip(start as int),
            d.len() > 0,
            x == v@.skip(from as int),
            is_signed_digits(x) == (forall|j: int| 0 <= j < d.len() ==> is_digit(#[trigger] d[j])),
            forall|j: int| 0 <= j < i - start ==> is_digit(#[trigger] d[j]),
        decreases v.len() - i,
    {
        assert(d[i - start] == v@[i as int]);
        if !('0' <= v[i] && v[i] <= '9') {
            assert(!is_digit(d[i - start]));
            return false;
        }
        i = i + 1;
    }
    true
}

proof fn lemma_exponent_start_skip(t: Seq<char>, i: int)
    requires
        0 <= i <= t.len(),
        forall|j: int| 0 <= j < i ==> ascii_lower(#[trigger] t[j]) != 'e',
    ensures
        exponent_start(t) == i + exponent_start(t.skip(i)),
    decreases i,
{
    if i > 0 {
        assert(ascii_lower(t[0]) != 'e');
        assert(t.drop_first().skip(i - 1) =~= t.skip(i));
        lemma_exponent_start_skip(t.drop_first(), i - 1);
    } else {
        assert(t.skip(0) =~= t);
    }
}

/// Whether `s` reads as a floating-point number (see [`is_number_literal`]).
pub fn number_literal(s: &[char]) -> (r: bool)
    ensures
        r == is_number_literal(s@),
{
    let start: usize = if s.len() > 0 && (s[0] == '+' || s[0] == '-') {
        1
    } else {
        0
    };
    let ghost t = s@.skip(start as int);
    assert(t =~= if s@.len() > 0 && (s@[0] == '+' || s@[0] == '-') { s@.drop_first() } else { s@ });
    let inf: [char; 3] = ['i', 'n', 'f'];
    let infinity: [char; 8] = ['i', 'n', 'f', 'i', 'n', 'i', 't', 'y'];
    let nan: [char; 3] = ['n', 'a', 'n'];
    assert(inf@ =~= seq!['i', 'n', 'f']);
    assert(infinity@ =~= seq!['i', 'n', 'f', 'i', 'n', 'i', 't', 'y']);
    assert(nan@ =~= seq!['n', 'a', 'n']);
    if word_at(s, start, &inf) || word_at(s, start, &infinity) || word_at(s, start, &nan) {
        return true;
    }
    let mut k = start;
    while k < s.len() && to_ascii_lower(s[k]) != 'e'
        invariant
            start <= k <= s@.len(),
            t == s@.skip(start as int),
            forall|j: int| 0 <= j < k - start ==> ascii_lower(#[trigger] t[j]) != 'e',
        decreases s.len() - k,
    {
        assert(t[k - start] == s@[k as int]);
        k = k + 1;
    }
    proof {
        lemma_exponent_start_skip(t, k - start);
        if k < s.len() {
            assert(t.skip(k - start)[0] == s@[k as int]);
            assert(t.skip(k - start + 1) =~= s@.skip(k + 1));
        }
        assert(exponent_start(t) == k - start);
        assert(t.take(k - start) =~= s@.subrange(start as int, k as int));
    }
    if !mantissa_ok(s, start, k) {
        return false;
    }
    if k == s.len() {
        return true;
    }
    signed_digits_ok(s, k + 1)
}

/// Characters that number literals are made of.
pub open spec fn numeric_char(c: char) -> bool {
    is_digit(c) || c == '+' || c == '-' || c == '.' || ('a' <= ascii_lower(c) && ascii_lower(c) <= 'z')
}

/// The exponent marker, where there is one, is an `e` or an `E` within the text.
pub proof fn lemma_exponent_start_bound(t: Seq<char>)
    ensures
        exponent_start(t) <= t.len(),
        exponent_start(t) < t.len() ==> ascii_lower(t[exponent_start(t) as int]) == 'e',
    decreases t.len(),
{
    if t.len() > 0 && ascii_lower(t[0]) != 'e' {
        lemma_exponent_start_bound(t.drop_first());
        if exponent_start(t) < t.len() {
            assert(t[exponent_start(t) as int] == t.drop_first()[exponent_start(t.drop_first()) as int]);
        }
    }
}

/// A number literal is nonempty and made only of digits, signs, points and letters.
pub proof fn lemma_number_literal_chars(s: Seq<char>)
    requires
        is_number_literal(s),
    ensures
        s.len() > 0,
        forall|i: int| 0 <= i < s.len() ==> numeric_char(#[trigger] s[i]),
{
    let t = unsigned_part(s);
    assert(t == if s.len() > 0 && (s[0] == '+' || s[0] == '-') { s.drop_first() } else { s });
    assert forall|i: int| 0 <= i < t.len() implies numeric_char(#[trigger] t[i]) by {
        if is_word(t, seq!['i', 'n', 'f']) || is_word(t, seq!['i', 'n', 'f', 'i', 'n', 'i', 't', 'y'])
            || is_word(t, seq!['n', 'a', 'n']) {
        } else {
            let k = exponent_start(t) as int;
            lemma_exponent_start_bound(t);
            if i < k {
                assert(t.take(k)[i] == t[i]);
            } else if i > k {
                let x = t.skip(k + 1);
                assert(x[i - k - 1] == t[i]);
                if x.len() > 0 && (x[0] == '+' || x[0] == '-') {
                    if i - k - 1 > 0 {
                        assert(unsigned_part(x)[i - k - 2] == x[i - k - 1]);
                    }
                } else {
                    assert(unsigned_part(x)[i - k - 1] == x[i - k - 1]);
                }
            }
        }
    }
    if is_unsigned_number(t) && !is_word(t, seq!['i', 'n', 'f'])
        && !is_word(t, seq!['i', 'n', 'f', 'i', 'n', 'i', 't', 'y']) && !is_word(t, seq!['n', 'a', 'n']) {
        let k = exponent_start(t) as int;
        lemma_exponent_start_bound(t);
        let m = t.take(k);
        let j = choose|j: int| 0 <= j < m.len() && is_digit(#[trigger] m[j]);
        assert(t.len() > 0);
    }
    assert forall|i: int| 0 <= i < s.len() implies numeric_char(#[trigger] s[i]) by {
        if s.len() > 0 && (s[0] == '+' || s[0] == '-') {
            if i > 0 {
                assert(t[i - 1] == s[i]);
            }
        } else {
            assert(t[i] == s[i]);
        }
    }
}

/// A character of a number literal is neither whitespace nor one of the characters that
/// shape a config line.
pub proof fn lemma_numeric_char_plain(c: char)
    requires
        numeric_char(c),
    ensures
        !is_space(c),
        c != '#',
        c != '\n',
{
}

/// The index of the first `c` in `s`, or its length.
pub open spec fn index_of(s: Seq<char>, c: char) -> nat
    decreases s.len(),
{
    if s.len() == 0 || s[0] == c {
        0
    } else {
        1 + index_of(s.drop_first(), c)
    }
}

} // verus!
