//! The app's state and the decisions it makes: what a key press or a background result
//! does to the state, which request goes out, and what the status bar says.
use vstd::prelude::*;

use crate::net::model::{Location, LocationView, Place, PlaceView, WeatherData, WeatherView};
use crate::text::{
    all_space, char_count, chars_of, decimal, decimal_string, is_space, is_whitespace, owned,
    push_char, push_str, string_of, trim, trim_end, trim_range, trimmed,
};
use crate::ui::search::{truncate, truncated};

verus! {

/// The status bar occupies the bottom row; the canvas gets everything above it.
pub const STATUS_BAR_HEIGHT: u16 = 1;

/// How long, in milliseconds, a one-off message sits in the status bar.
pub const NOTICE_LIFETIME_MS: u64 = 6000;

/// The frame period of the animation, in milliseconds.
pub const TICK_RATE_MS: u64 = 66;

/// The keys the app tells apart.
#[derive(Debug, Clone, Copy, PartialEq, Eq, Structural)]
pub enum KeyCode {
    Char(char),
    Enter,
    Esc,
    Backspace,
    Up,
    Down,
    Tab,
    BackTab,
    /// Any other key.
    Other,
}

/// A key press: the key, and whether Control was held.
#[derive(Debug, Clone, Copy, PartialEq, Eq, Structural)]
pub struct Key {
    pub code: KeyCode,
    pub ctrl: bool,
}

impl Key {
    /// A key pressed without Control.
    pub fn plain(code: KeyCode) -> (k: Key)
        ensures
            k == (Key { code, ctrl: false }),
    {
        Key { code, ctrl: false }
    }

    /// A key pressed with Control held.
    pub fn with_ctrl(code: KeyCode) -> (k: Key)
        ensures
            k == (Key { code, ctrl: true }),
    {
        Key { code, ctrl: true }
    }
}

/// Work the UI asks the background tasks to do.
#[derive(Debug)]
pub enum Request {
    /// Re-fetch the weather now.
    Refresh,
    /// Look a place name up with the geocoder.
    Search(String),
    /// Use this location from now on, and remember it.
    Use(Location),
}

pub enum RequestView {
    Refresh,
    Search(Seq<char>),
    Use(LocationView),
}

impl View for Request {
    type V = RequestView;

    open spec fn view(&self) -> RequestView {
        match self {
            Request::Refresh => RequestView::Refresh,
            Request::Search(q) => RequestView::Search(q@),
            Request::Use(l) => RequestView::Use(l@),
        }
    }
}

pub open spec fn request_view(r: Option<Request>) -> Option<RequestView> {
    match r {
        Some(q) => Some(q@),
        None => None,
    }
}

/// News from the background tasks.
#[derive(Debug)]
pub enum Update {
    Weather(Result<WeatherData, String>),
    Search(Result<Vec<Place>, String>),
    /// Something worth a line in the status bar, but not worth failing over.
    Notice(String),
}

pub enum UpdateView {
    Weather(Result<WeatherView, Seq<char>>),
    Search(Result<Seq<PlaceView>, Seq<char>>),
    Notice(Seq<char>),
}

pub open spec fn places_view(v: Seq<Place>) -> Seq<PlaceView> {
    v.map_values(|p: Place| p@)
}

impl View for Update {
    type V = UpdateView;

    open spec fn view(&self) -> UpdateView {
        match self {
            Update::Weather(Ok(w)) => UpdateView::Weather(Ok(w@)),
            Update::Weather(Err(e)) => UpdateView::Weather(Err(e@)),
            Update::Search(Ok(p)) => UpdateView::Search(Ok(places_view(p@))),
            Update::Search(Err(e)) => UpdateView::Search(Err(e@)),
            Update::Notice(m) => UpdateView::Notice(m@),
        }
    }
}

/// Where the location picker stands.
#[derive(Debug, Clone, PartialEq)]
pub enum SearchStatus {
    /// Waiting for the user; the results list, if any, is theirs to pick from.
    Typing,
    Searching,
    NoMatches,
    Failed(String),
}

pub enum StatusView {
    Typing,
    Searching,
    NoMatches,
    Failed(Seq<char>),
}

impl View for SearchStatus {
    type V = StatusView;

    open spec fn view(&self) -> StatusView {
        match self {
            SearchStatus::Typing => StatusView::Typing,
            SearchStatus::Searching => StatusView::Searching,
            SearchStatus::NoMatches => StatusView::NoMatches,
            SearchStatus::Failed(e) => StatusView::Failed(e@),
        }
    }
}

/// State of the `l` location picker.
#[derive(Debug)]
pub struct Search {
    pub query: String,
    /// The query the current results belong to; empty until one is sent.
    pub submitted: String,
    pub results: Vec<Place>,
    pub selected: usize,
    pub status: SearchStatus,
}

#[verifier::ext_equal]
pub struct SearchView {
    pub query: Seq<char>,
    pub submitted: Seq<char>,
    pub results: Seq<PlaceView>,
    pub selected: usize,
    pub status: StatusView,
}

impl View for Search {
    type V = SearchView;

    open spec fn view(&self) -> SearchView {
        SearchView {
            query: self.query@,
            submitted: self.submitted@,
            results: places_view(self.results@),
            selected: self.selected,
            status: self.status@,
        }
    }
}

/// The picker as it opens: nothing typed, nothing found.
pub open spec fn fresh_search() -> SearchView {
    SearchView {
        query: Seq::empty(),
        submitted: Seq::empty(),
        results: Seq::empty(),
        selected: 0,
        status: StatusView::Typing,
    }
}

/// Enter picks a result only when the list matches what is typed.
pub open spec fn results_current(p: SearchView) -> bool {
    p.results.len() > 0 && p.submitted == trim(p.query)
}

/// How many characters of `t` stay when its last word goes: everything up to and
/// including the last whitespace character, or nothing.
pub open spec fn word_cut(t: Seq<char>) -> nat
    decreases t.len(),
{
    if t.len() == 0 {
        0
    } else if is_space(t.last()) {
        t.len()
    } else {
        word_cut(t.drop_last())
    }
}

/// What an editing key (anything but Esc and Enter) does to the picker.
pub open spec fn edit_step(p: SearchView, k: Key) -> SearchView {
    let n = p.results.len();
    match k.code {
        KeyCode::Up | KeyCode::BackTab => if n > 0 {
            SearchView { selected: ((p.selected + n - 1) % (n as int)) as usize, ..p }
        } else {
            p
        },
        KeyCode::Down | KeyCode::Tab => if n > 0 {
            SearchView { selected: ((p.selected + 1) % (n as int)) as usize, ..p }
        } else {
            p
        },
        KeyCode::Backspace => if p.query.len() > 0 {
            SearchView { query: p.query.drop_last(), ..p }
        } else {
            p
        },
        KeyCode::Char(c) => if k.ctrl {
            if c == 'u' {
                SearchView { query: Seq::empty(), ..p }
            } else if c == 'w' {
                SearchView { query: p.query.take(word_cut(trim_end(p.query)) as int), ..p }
            } else {
                p
            }
        } else {
            SearchView { query: p.query.push(c), ..p }
        },
        _ => p,
    }
}

pub struct AppView {
    pub weather: Option<WeatherView>,
    pub error: Option<Seq<char>>,
    pub show_details: bool,
    pub should_quit: bool,
    pub last_updated: Option<u64>,
    pub search: Option<SearchView>,
    pub pending_location: Option<LocationView>,
    pub notice: Option<(Seq<char>, u64)>,
}

/// The app as it starts: no reading yet, nothing open.
pub open spec fn initial_app() -> AppView {
    AppView {
        weather: None,
        error: None,
        show_details: false,
        should_quit: false,
        last_updated: None,
        search: None,
        pending_location: None,
        notice: None,
    }
}

pub open spec fn is_ctrl_c(k: Key) -> bool {
    k.ctrl && k.code == KeyCode::Char('c')
}

/// Enter on current results: use the selected place, close the picker.
pub open spec fn pick_step(s: AppView, p: SearchView) -> (AppView, Option<RequestView>) {
    if p.selected < p.results.len() {
        let loc = p.results[p.selected as int].location;
        (AppView { pending_location: Some(loc), search: None, ..s }, Some(RequestView::Use(loc)))
    } else {
        (s, None)
    }
}

/// Enter otherwise: send the trimmed query to the geocoder, unless it is blank.
pub open spec fn submit_step(s: AppView, p: SearchView) -> (AppView, Option<RequestView>) {
    let q = trim(p.query);
    if q.len() == 0 {
        (s, None)
    } else {
        (
            AppView {
                search: Some(
                    SearchView { submitted: q, results: Seq::empty(), status: StatusView::Searching, ..p },
                ),
                ..s
            },
            Some(RequestView::Search(q)),
        )
    }
}

/// A key press while the picker is open: every key belongs to it.
pub open spec fn picker_step(s: AppView, p: SearchView, k: Key) -> (AppView, Option<RequestView>) {
    match k.code {
        KeyCode::Esc => (AppView { search: None, ..s }, None),
        KeyCode::Enter => if results_current(p) {
            pick_step(s, p)
        } else {
            submit_step(s, p)
        },
        _ => (AppView { search: Some(edit_step(p, k)), ..s }, None),
    }
}

/// What a key press does: the next state, and the request it sends, if any.
pub open spec fn key_step(s: AppView, k: Key) -> (AppView, Option<RequestView>) {
    if is_ctrl_c(k) {
        (AppView { should_quit: true, ..s }, None)
    } else if s.search is Some {
        picker_step(s, s.search->0, k)
    } else {
        match k.code {
            KeyCode::Char(c) => if c == 'q' {
                (AppView { should_quit: true, ..s }, None)
            } else if c == 'd' || c == 'i' {
                (AppView { show_details: !s.show_details, ..s }, None)
            } else if c == 'l' {
                (AppView { show_details: false, search: Some(fresh_search()), ..s }, None)
            } else if c == 'r' {
                (s, Some(RequestView::Refresh))
            } else {
                (s, None)
            },
            KeyCode::Esc => (AppView { should_quit: true, ..s }, None),
            _ => (s, None),
        }
    }
}

/// What news from the background does to the state, at time `now` (milliseconds).
pub open spec fn update_step(s: AppView, u: UpdateView, now: u64) -> AppView {
    match u {
        UpdateView::Weather(Ok(w)) => AppView {
            weather: Some(w),
            error: None,
            pending_location: None,
            last_updated: Some(now),
            ..s
        },
        UpdateView::Weather(Err(e)) => if s.pending_location is Some {
            AppView {
                pending_location: None,
                notice: Some(("could not load that location: "@ + e, now)),
                error: Some(e),
                ..s
            }
        } else {
            AppView { error: Some(e), ..s }
        },
        UpdateView::Search(r) => match s.search {
            Some(p) => {
                let q = match r {
                    Ok(places) => if places.len() == 0 {
                        SearchView { results: Seq::empty(), status: StatusView::NoMatches, ..p }
                    } else {
                        SearchView { results: places, selected: 0, status: StatusView::Typing, ..p }
                    },
                    Err(e) => SearchView { results: Seq::empty(), status: StatusView::Failed(e), ..p },
                };
                AppView { search: Some(q), ..s }
            },
            None => s,
        },
        UpdateView::Notice(m) => AppView { notice: Some((m, now)), ..s },
    }
}

/// The place the status bar names: what was just picked, else what was fetched.
pub open spec fn shown_location(s: AppView) -> Option<LocationView> {
    match s.pending_location {
        Some(l) => Some(l),
        None => match s.weather {
            Some(w) => Some(w.location),
            None => None,
        },
    }
}

/// Milliseconds from `then` to `now`, zero if `now` is earlier.
pub open spec fn elapsed_ms(then: u64, now: u64) -> nat {
    if now >= then {
        (now - then) as nat
    } else {
        0
    }
}

/// The middle segment of the status bar: a notice younger than its lifetime, else
/// "updating…" while a picked place loads, else the age of the reading.
pub open spec fn freshness_text(s: AppView, now: u64) -> Seq<char> {
    let fresh_notice = match s.notice {
        Some((m, at)) => if elapsed_ms(at, now) < NOTICE_LIFETIME_MS {
            Some(m)
        } else {
            None
        },
        None => None,
    };
    if fresh_notice is Some {
        fresh_notice->0
    } else if s.pending_location is Some {
        "updating…"@
    } else {
        match s.last_updated {
            Some(t) => {
                let secs = elapsed_ms(t, now) / 1000;
                if secs < 60 {
                    "updated "@ + decimal(secs) + "s ago"@
                } else {
                    "updated "@ + decimal(secs / 60) + "m ago"@
                }
            },
            None => "not yet updated"@,
        }
    }
}

/// The message shown in place of the picture until a reading arrives.
pub open spec fn waiting_text(s: AppView) -> Seq<char> {
    match s.error {
        Some(e) => "could not load weather yet: "@ + e
            + "\n(retrying automatically — press r to retry now, l to pick a location)"@,
        None => "fetching local weather..."@,
    }
}

/// The long and the short name of what the status bar shows.
pub open spec fn location_names(l: Option<LocationView>) -> (Seq<char>, Seq<char>) {
    match l {
        Some(loc) => if loc.region.len() == 0 {
            (loc.city, loc.city)
        } else {
            (loc.city + ", "@ + loc.region, loc.city)
        },
        None => ("locating..."@, "locating..."@),
    }
}

/// The status bar's candidate lines, widest first; hints are dropped whole.
pub open spec fn status_ladder(long: Seq<char>, short: Seq<char>, fresh: Seq<char>) -> Seq<Seq<char>> {
    seq![
        long + "  ·  "@ + fresh + "  ·  [d] details  [l] location  [r] refresh  [q] quit"@,
        long + " · "@ + fresh + " · [d] details [l] location [r] refresh [q] quit"@,
        short + " · "@ + fresh + " · [d] details [l] location [q] quit"@,
        short + " · "@ + fresh + " · [d]etails [l]ocation [q]uit"@,
        short + " · [d]etails [l]ocation [q]uit"@,
        short + " · [d] [l] [q]"@,
        short,
    ]
}

/// The first line of `rungs` that fits in `width` characters, else `fallback`.
pub open spec fn first_fitting(rungs: Seq<Seq<char>>, width: nat, fallback: Seq<char>) -> Seq<char>
    decreases rungs.len(),
{
    if rungs.len() == 0 {
        fallback
    } else if rungs[0].len() <= width {
        rungs[0]
    } else {
        first_fitting(rungs.drop_first(), width, fallback)
    }
}

/// The status bar line for a terminal `width` characters wide.
pub open spec fn status_text(s: AppView, width: nat, now: u64) -> Seq<char> {
    let (long, short) = location_names(shown_location(s));
    first_fitting(status_ladder(long, short, freshness_text(s, now)), width, truncated(short, width))
}

impl Search {
    fn new() -> (s: Search)
        ensures
            s@ == fresh_search(),
    {
        let s = Search {
            query: String::new(),
            submitted: String::new(),
            results: Vec::new(),
            selected: 0,
            status: SearchStatus::Typing,
        };
        assert(s@.results =~= Seq::<PlaceView>::empty());
        s
    }

    /// Whether Enter would pick from the list rather than search again.
    pub fn results_are_current(&self) -> (b: bool)
        ensures
            b == results_current(self@),
    {
        if self.results.len() == 0 {
            return false;
        }
        let q = trimmed(self.query.as_str());
        self.submitted == q
    }

    /// Applies an editing key: moving the selection, or changing the query.
    fn edit(&mut self, k: Key)
        ensures
            final(self)@ == edit_step(old(self)@, k),
    {
        let n = self.results.len();
        match k.code {
            KeyCode::Up | KeyCode::BackTab => {
                if n > 0 {
                    let r = self.selected % n;
                    proof {
                        lemma_previous_wraps(self.selected as int, n as int);
                    }
                    self.selected = if r == 0 {
                        n - 1
                    } else {
                        r - 1
                    };
                }
            },
            KeyCode::Down | KeyCode::Tab => {
                if n > 0 {
                    let r = self.selected % n;
                    proof {
                        lemma_next_wraps(self.selected as int, n as int);
                    }
                    self.selected = if r + 1 == n {
                        0
                    } else {
                        r + 1
                    };
                }
            },
            KeyCode::Backspace => {
                let v = chars_of(self.query.as_str());
                if v.len() > 0 {
                    self.query = string_of(v.as_slice(), 0, v.len() - 1);
                    assert(self.query@ =~= old(self).query@.drop_last());
                }
            },
            KeyCode::Char(c) => {
                if k.ctrl {
                    if c == 'u' {
                        self.query = String::new();
                    } else if c == 'w' {
                        let v = chars_of(self.query.as_str());
                        let cut = word_cut_index(v.as_slice());
                        self.query = string_of(v.as_slice(), 0, cut);
                    }
                } else {
                    push_char(&mut self.query, c);
                }
            },
            _ => {},
        }
    }
}

proof fn lemma_previous_wraps(s: int, n: int)
    requires
        s >= 0,
        n > 0,
    ensures
        (s + n - 1) % n == if s % n == 0 {
            n - 1
        } else {
            s % n - 1
        },
{
    let r = s % n;
    let q = s / n;
    vstd::arithmetic::div_mod::lemma_fundamental_div_mod(s, n);
    assert(s + n - 1 == q * n + (r + n - 1));
    assert(q * n == n * q) by (nonlinear_arith);
    if r == 0 {
        assert(s + n - 1 == n * q + (n - 1));
        vstd::arithmetic::div_mod::lemma_mod_multiples_vanish(q, n - 1, n);
        vstd::arithmetic::div_mod::lemma_small_mod((n - 1) as nat, n as nat);
    } else {
        vstd::arithmetic::div_mod::lemma_mod_multiples_vanish(q + 1, r - 1, n);
        assert(s + n - 1 == n * (q + 1) + (r - 1)) by (nonlinear_arith)
            requires
                s + n - 1 == q * n + (r + n - 1),
        ;
        vstd::arithmetic::div_mod::lemma_small_mod((r - 1) as nat, n as nat);
    }
}

proof fn lemma_next_wraps(s: int, n: int)
    requires
        s >= 0,
        n > 0,
    ensures
        (s + 1) % n == if s % n + 1 == n {
            0
        } else {
            s % n + 1
        },
{
    let r = s % n;
    let q = s / n;
    vstd::arithmetic::div_mod::lemma_fundamental_div_mod(s, n);
    if r + 1 == n {
        assert(s + 1 == (q + 1) * n) by (nonlinear_arith)
            requires
                s == q * n + r,
                r + 1 == n,
        ;
        vstd::arithmetic::div_mod::lemma_mod_multiples_basic(q + 1, n);
    } else {
        vstd::arithmetic::div_mod::lemma_mod_multiples_vanish(q, r + 1, n);
        vstd::arithmetic::div_mod::lemma_small_mod((r + 1) as nat, n as nat);
    }
}

/// Where Ctrl-W cuts `v`: after the last whitespace character of the text with
/// trailing whitespace dropped, or at the start.
fn word_cut_index(v: &[char]) -> (cut: usize)
    ensures
        cut == word_cut(trim_end(v@)),
        cut <= v@.len(),
{
    let n = v.len();
    let mut j: usize = n;
    assert(v@.subrange(0, n as int) =~= v@);
    while j > 0 && is_whitespace(v[j - 1])
        invariant
            j <= n == v@.len(),
            trim_end(v@) == trim_end(v@.subrange(0, j as int)),
        decreases j,
    {
        assert(v@.subrange(0, j as int).drop_last() =~= v@.subrange(0, j - 1));
        j = j - 1;
    }
    assert(trim_end(v@) == v@.subrange(0, j as int));
    let mut k: usize = j;
    while k > 0 && !is_whitespace(v[k - 1])
        invariant
            k <= j <= n == v@.len(),
            word_cut(trim_end(v@)) == word_cut(v@.subrange(0, k as int)),
        decreases k,
    {
        assert(v@.subrange(0, k as int).drop_last() =~= v@.subrange(0, k - 1));
        k = k - 1;
    }
    k
}

/// The app's state. The animation and the channels live with the terminal loop.
#[derive(Debug)]
pub struct App {
    pub weather: Option<WeatherData>,
    pub error: Option<String>,
    pub show_details: bool,
    pub should_quit: bool,
    /// When the last reading arrived, in milliseconds on the caller's clock.
    pub last_updated: Option<u64>,
    pub search: Option<Search>,
    /// A location just picked, shown until its first reading arrives.
    pub pending_location: Option<Location>,
    /// A message for the status bar, and when it was posted (milliseconds).
    pub notice: Option<(String, u64)>,
}

pub open spec fn opt_view<T: View>(o: Option<T>) -> Option<T::V> {
    match o {
        Some(t) => Some(t@),
        None => None,
    }
}

impl View for App {
    type V = AppView;

    open spec fn view(&self) -> AppView {
        AppView {
            weather: opt_view(self.weather),
            error: opt_view(self.error),
            show_details: self.show_details,
            should_quit: self.should_quit,
            last_updated: self.last_updated,
            search: opt_view(self.search),
            pending_location: opt_view(self.pending_location),
            notice: match self.notice {
                Some((m, t)) => Some((m@, t)),
                None => None,
            },
        }
    }
}

impl App {
    /// A fresh app: no reading, no picker, no details.
    pub fn new() -> (a: App)
        ensures
            a@ == initial_app(),
    {
        App {
            weather: None,
            error: None,
            show_details: false,
            should_quit: false,
            last_updated: None,
            search: None,
            pending_location: None,
            notice: None,
        }
    }

    /// Applies news from the background at time `now` (milliseconds).
    pub fn apply_update(&mut self, update: Update, now: u64)
        ensures
            final(self)@ == update_step(old(self)@, update@, now),
    {
        match update {
            Update::Weather(Ok(weather)) => {
                self.weather = Some(weather);
                self.error = None;
                self.pending_location = None;
                self.last_updated = Some(now);
            },
            Update::Weather(Err(e)) => {
                // Losing the name the user just picked, silently, reads as if the
                // pick never took: say why the status bar is reverting.
                if self.pending_location.is_some() {
                    self.pending_location = None;
                    let mut msg = owned("could not load that location: ");
                    push_str(&mut msg, e.as_str());
                    self.notice = Some((msg, now));
                }
                self.error = Some(e);
            },
            Update::Search(result) => {
                // Results that arrive after the picker is closed are dropped.
                if self.search.is_some() {
                    let mut search = self.search.take().unwrap();
                    match result {
                        Ok(places) => {
                            if places.len() == 0 {
                                search.results = Vec::new();
                                search.status = SearchStatus::NoMatches;
                            } else {
                                search.results = places;
                                search.selected = 0;
                                search.status = SearchStatus::Typing;
                            }
                        },
                        Err(e) => {
                            search.results = Vec::new();
                            search.status = SearchStatus::Failed(e);
                        },
                    }
                    assert(search@.results =~= match update@ {
                        UpdateView::Search(Ok(p)) => if p.len() == 0 { Seq::empty() } else { p },
                        _ => Seq::empty(),
                    });
                    self.search = Some(search);
                }
            },
            Update::Notice(msg) => {
                self.notice = Some((msg, now));
            },
        }
    }

    /// Handles a key press; returns the request it sends, if any.
    pub fn handle_key(&mut self, key: Key) -> (r: Option<Request>)
        ensures
            (final(self)@, request_view(r)) == key_step(old(self)@, key),
    {
        let ctrl_c = key.ctrl && match key.code {
            KeyCode::Char(c) => c == 'c',
            _ => false,
        };
        if ctrl_c {
            self.should_quit = true;
            return None;
        }
        // While the picker is open every other key belongs to it.
        if self.search.is_some() {
            return self.handle_search_key(key);
        }
        match key.code {
            KeyCode::Char(c) => {
                if c == 'q' {
                    self.should_quit = true;
                } else if c == 'd' || c == 'i' {
                    self.show_details = !self.show_details;
                } else if c == 'l' {
                    self.show_details = false;
                    self.search = Some(Search::new());
                } else if c == 'r' {
                    return Some(Request::Refresh);
                }
                None
            },
            KeyCode::Esc => {
                self.should_quit = true;
                None
            },
            _ => None,
        }
    }

    fn handle_search_key(&mut self, key: Key) -> (r: Option<Request>)
        requires
            old(self).search is Some,
        ensures
            (final(self)@, request_view(r)) == picker_step(old(self)@, old(self)@.search->0, key),
    {
        match key.code {
            KeyCode::Esc => {
                self.search = None;
                None
            },
            KeyCode::Enter => {
                let current = self.search.as_ref().unwrap().results_are_current();
                if current {
                    self.use_selected()
                } else {
                    self.submit_search()
                }
            },
            _ => {
                let mut search = self.search.take().unwrap();
                search.edit(key);
                self.search = Some(search);
                None
            },
        }
    }

    fn submit_search(&mut self) -> (r: Option<Request>)
        requires
            old(self).search is Some,
        ensures
            (final(self)@, request_view(r)) == submit_step(old(self)@, old(self)@.search->0),
    {
        let query = trimmed(self.search.as_ref().unwrap().query.as_str());
        if query.as_str().is_empty() {
            return None;
        }
        let mut search = self.search.take().unwrap();
        search.submitted = query.clone();
        search.results = Vec::new();
        search.status = SearchStatus::Searching;
        assert(search@.results =~= Seq::<PlaceView>::empty());
        self.search = Some(search);
        Some(Request::Search(query))
    }

    fn use_selected(&mut self) -> (r: Option<Request>)
        requires
            old(self).search is Some,
        ensures
            (final(self)@, request_view(r)) == pick_step(old(self)@, old(self)@.search->0),
    {
        let chosen: Option<Location> = match &self.search {
            Some(s) => if s.selected < s.results.len() {
                Some(s.results[s.selected].location.clone())
            } else {
                None
            },
            None => None,
        };
        match chosen {
            Some(location) => {
                let request = Request::Use(location.clone());
                self.pending_location = Some(location);
                self.search = None;
                Some(request)
            },
            None => None,
        }
    }

    /// The place the status bar names: what was just picked, else what was fetched.
    pub fn location(&self) -> (r: Option<&Location>)
        ensures
            opt_view(match r { Some(l) => Some(*l), None => None }) == shown_location(self@),
    {
        match &self.pending_location {
            Some(l) => Some(l),
            None => match &self.weather {
                Some(w) => Some(&w.location),
                None => None,
            },
        }
    }

    /// The message shown in place of the picture until a reading arrives.
    pub fn waiting_message(&self) -> (r: String)
        ensures
            r@ == waiting_text(self@),
    {
        match &self.error {
            Some(e) => {
                let mut m = owned("could not load weather yet: ");
                push_str(&mut m, e.as_str());
                push_str(&mut m, "\n(retrying automatically — press r to retry now, l to pick a location)");
                m
            },
            None => owned("fetching local weather..."),
        }
    }

    /// The middle segment of the status bar at time `now`.
    pub fn freshness(&self, now: u64) -> (r: String)
        ensures
            r@ == freshness_text(self@, now),
    {
        if let Some((msg, at)) = &self.notice {
            let elapsed = if now >= *at { now - *at } else { 0 };
            if elapsed < NOTICE_LIFETIME_MS {
                return msg.clone();
            }
        }
        if self.pending_location.is_some() {
            return owned("updating…");
        }
        match self.last_updated {
            Some(t) => {
                let elapsed = if now >= t { now - t } else { 0 };
                let secs = elapsed / 1000;
                let mut r = owned("updated ");
                if secs < 60 {
                    let d = decimal_string(secs);
                    push_str(&mut r, d.as_str());
                    push_str(&mut r, "s ago");
                } else {
                    let d = decimal_string(secs / 60);
                    push_str(&mut r, d.as_str());
                    push_str(&mut r, "m ago");
                }
                r
            },
            None => owned("not yet updated"),
        }
    }

    /// The status bar for a terminal `width` characters wide, at time `now`.
    pub fn status_line(&self, width: u16, now: u64) -> (r: String)
        ensures
            r@ == status_text(self@, width as nat, now),
            r@.len() <= width,
    {
        let width = width as usize;
        let (long, short) = match self.location() {
            Some(loc) => {
                if loc.region.as_str().is_empty() {
                    (loc.city.clone(), loc.city.clone())
                } else {
                    let mut long = loc.city.clone();
                    push_str(&mut long, ", ");
                    push_str(&mut long, loc.region.as_str());
                    (long, loc.city.clone())
                }
            },
            None => (owned("locating..."), owned("locating...")),
        };
        let fresh = self.freshness(now);
        let ghost rungs = status_ladder(long@, short@, fresh@);
        let ghost fallback = truncated(short@, width as nat);
        proof {
            lemma_truncated_fits(short@, width as nat);
            lemma_first_fitting_fits(rungs, width as nat, fallback);
            reveal_with_fuel(first_fitting, 8);
        }
        let r0 = concat4(long.as_str(), "  ·  ", fresh.as_str(), "  ·  [d] details  [l] location  [r] refresh  [q] quit");
        if char_count(r0.as_str()) <= width {
            return r0;
        }
        let r1 = concat4(long.as_str(), " · ", fresh.as_str(), " · [d] details [l] location [r] refresh [q] quit");
        if char_count(r1.as_str()) <= width {
            assert(rungs.drop_first()[0] == rungs[1]);
            return r1;
        }
        let r2 = concat4(short.as_str(), " · ", fresh.as_str(), " · [d] details [l] location [q] quit");
        assert(rungs.drop_first().drop_first()[0] == rungs[2]);
        if char_count(r2.as_str()) <= width {
            return r2;
        }
        let r3 = concat4(short.as_str(), " · ", fresh.as_str(), " · [d]etails [l]ocation [q]uit");
        assert(rungs.drop_first().drop_first().drop_first()[0] == rungs[3]);
        if char_count(r3.as_str()) <= width {
            return r3;
        }
        let mut r4 = short.clone();
        push_str(&mut r4, " · [d]etails [l]ocation [q]uit");
        assert(rungs.drop_first().drop_first().drop_first().drop_first()[0] == rungs[4]);
        if char_count(r4.as_str()) <= width {
            return r4;
        }
        let mut r5 = short.clone();
        push_str(&mut r5, " · [d] [l] [q]");
        assert(rungs.drop_first().drop_first().drop_first().drop_first().drop_first()[0] == rungs[5]);
        if char_count(r5.as_str()) <= width {
            return r5;
        }
        assert(rungs.drop_first().drop_first().drop_first().drop_first().drop_first().drop_first()[0] == rungs[6]);
        assert(rungs.drop_first().drop_first().drop_first().drop_first().drop_first().drop_first().drop_first().len() == 0);
        if char_count(short.as_str()) <= width {
            return short;
        }
        truncate(short.as_str(), width)
    }
}

/// `a + b + c + d` as one string.
fn concat4(a: &str, b: &str, c: &str, d: &str) -> (r: String)
    ensures
        r@ == a@ + b@ + c@ + d@,
{
    let mut r = owned(a);
    push_str(&mut r, b);
    push_str(&mut r, c);
    push_str(&mut r, d);
    r
}

/// A cut text is never longer than the room it was cut to.
pub proof fn lemma_truncated_fits(text: Seq<char>, max: nat)
    ensures
        truncated(text, max).len() <= max,
{
}

/// Choosing the first candidate that fits, with a fallback that fits, gives a text that fits.
pub proof fn lemma_first_fitting_fits(rungs: Seq<Seq<char>>, width: nat, fallback: Seq<char>)
    requires
        fallback.len() <= width,
    ensures
        first_fitting(rungs, width, fallback).len() <= width,
    decreases rungs.len(),
{
    if rungs.len() > 0 && rungs[0].len() > width {
        lemma_first_fitting_fits(rungs.drop_first(), width, fallback);
    }
}


/// The picker's selection is a valid index whenever there are results to select.
pub open spec fn selection_in_range(s: AppView) -> bool {
    match s.search {
        Some(p) => p.results.len() > 0 ==> p.selected < p.results.len(),
        None => true,
    }
}

/// Ctrl-C quits from any state, picker open or not, and sends nothing.
pub proof fn lemma_ctrl_c_quits(s: AppView, k: Key)
    requires
        is_ctrl_c(k),
    ensures
        key_step(s, k).0.should_quit,
        key_step(s, k).1 is None,
{
}

/// With the picker open, a plain character is just text: it sends nothing, quits
/// nothing, opens nothing, and is added to the query.
pub proof fn lemma_picker_keeps_letters(s: AppView, c: char)
    requires
        s.search is Some,
    ensures
        key_step(s, Key { code: KeyCode::Char(c), ctrl: false }).1 is None,
        key_step(s, Key { code: KeyCode::Char(c), ctrl: false }).0.should_quit == s.should_quit,
        key_step(s, Key { code: KeyCode::Char(c), ctrl: false }).0.show_details == s.show_details,
        key_step(s, Key { code: KeyCode::Char(c), ctrl: false }).0.search->0.query == s.search->0.query.push(c),
{
}

/// Esc with the picker open closes it and does not quit.
pub proof fn lemma_esc_closes_picker(s: AppView)
    requires
        s.search is Some,
    ensures
        key_step(s, Key { code: KeyCode::Esc, ctrl: false }).0.search is None,
        key_step(s, Key { code: KeyCode::Esc, ctrl: false }).0.should_quit == s.should_quit,
        key_step(s, Key { code: KeyCode::Esc, ctrl: false }).1 is None,
{
}

/// A failed refresh keeps the last good reading, and records the error.
pub proof fn lemma_failed_refresh_keeps_reading(s: AppView, e: Seq<char>, now: u64)
    ensures
        update_step(s, UpdateView::Weather(Err(e)), now).weather == s.weather,
        update_step(s, UpdateView::Weather(Err(e)), now).error == Some(e),
{
}

/// Search results that arrive after the picker closed change nothing.
pub proof fn lemma_late_results_dropped(s: AppView, r: Result<Seq<PlaceView>, Seq<char>>, now: u64)
    requires
        s.search is None,
    ensures
        update_step(s, UpdateView::Search(r), now) == s,
{
}

/// Enter on a blank query, with no current results, sends nothing and changes nothing.
pub proof fn lemma_blank_query_not_searched(s: AppView)
    requires
        s.search is Some,
        all_space(s.search->0.query),
        s.search->0.results.len() == 0,
    ensures
        key_step(s, Key { code: KeyCode::Enter, ctrl: false }) == (s, None::<RequestView>),
{
    crate::text::lemma_trim_empty(s.search->0.query);
}

/// Enter on results that match the query uses the selected place: the picker closes, the
/// place is pending, and it is what the status bar names until its reading arrives.
pub proof fn lemma_enter_picks(s: AppView)
    requires
        s.search is Some,
        results_current(s.search->0),
        s.search->0.selected < s.search->0.results.len(),
    ensures
        ({
            let p = s.search->0;
            let loc = p.results[p.selected as int].location;
            let (t, r) = key_step(s, Key { code: KeyCode::Enter, ctrl: false });
            &&& r == Some(RequestView::Use(loc))
            &&& t.search is None
            &&& t.pending_location == Some(loc)
            &&& shown_location(t) == Some(loc)
        }),
{
}

/// Enter on a query that does not match the results sends the trimmed query, clears the
/// results and shows that it is searching.
pub proof fn lemma_enter_searches(s: AppView)
    requires
        s.search is Some,
        !results_current(s.search->0),
        !all_space(s.search->0.query),
    ensures
        ({
            let q = trim(s.search->0.query);
            let (t, r) = key_step(s, Key { code: KeyCode::Enter, ctrl: false });
            &&& r == Some(RequestView::Search(q))
            &&& t.search->0.submitted == q
            &&& t.search->0.results.len() == 0
            &&& t.search->0.status == StatusView::Searching
        }),
{
    crate::text::lemma_trim_empty(s.search->0.query);
}

proof fn lemma_trim_push(q: Seq<char>, c: char)
    requires
        !is_space(c),
    ensures
        trim(q.push(c)).len() > trim(q).len(),
        trim(q.push(c)).last() == c,
    decreases q.len(),
{
    if q.len() > 0 && is_space(q[0]) {
        assert(q.push(c).drop_first() =~= q.drop_first().push(c));
        lemma_trim_push(q.drop_first(), c);
    } else {
        assert(crate::text::trim_start(q.push(c)) == q.push(c));
        assert(q.push(c).drop_last() =~= q);
        lemma_trim_end_len(q);
    }
}

proof fn lemma_trim_end_len(q: Seq<char>)
    ensures
        trim_end(q).len() <= q.len(),
    decreases q.len(),
{
    if q.len() > 0 && is_space(q.last()) {
        lemma_trim_end_len(q.drop_last());
    }
}

proof fn lemma_trim_start_len(q: Seq<char>)
    ensures
        crate::text::trim_start(q).len() <= q.len(),
    decreases q.len(),
{
    if q.len() > 0 && is_space(q[0]) {
        lemma_trim_start_len(q.drop_first());
    }
}

/// Typing a visible character after a search makes Enter search again rather than pick
/// a result that belongs to the old query.
pub proof fn lemma_typing_rearms_search(s: AppView, c: char)
    requires
        s.search is Some,
        results_current(s.search->0),
        !is_space(c),
    ensures
        !results_current(key_step(s, Key { code: KeyCode::Char(c), ctrl: false }).0.search->0),
{
    let p = s.search->0;
    lemma_trim_push(p.query, c);
    if p.submitted == trim(p.query.push(c)) {
        lemma_trim_start_len(p.query);
        lemma_trim_end_len(crate::text::trim_start(p.query));
        assert(false);
    }
}

/// Every key press and every piece of news keeps the selection a valid index.
pub proof fn lemma_selection_stays_in_range(s: AppView, k: Key, u: UpdateView, now: u64)
    requires
        selection_in_range(s),
    ensures
        selection_in_range(key_step(s, k).0),
        selection_in_range(update_step(s, u, now)),
{
    if let Some(p) = s.search {
        let n = p.results.len();
        if n > 0 {
            assert((p.selected + n - 1) % (n as int) < n);
            assert((p.selected + 1) % (n as int) < n);
        }
    }
}

/// Moving the selection down and then up returns it to where it was.
pub proof fn lemma_down_then_up(s: AppView)
    requires
        s.search is Some,
        0 < s.search->0.results.len() <= usize::MAX,
        s.search->0.selected < s.search->0.results.len(),
    ensures
        ({
            let t = key_step(s, Key { code: KeyCode::Down, ctrl: false }).0;
            key_step(t, Key { code: KeyCode::Up, ctrl: false }).0.search->0.selected == s.search->0.selected
        }),
{
    let p = s.search->0;
    let n = p.results.len() as int;
    let d = (p.selected + 1) % n;
    lemma_next_wraps(p.selected as int, n);
    vstd::arithmetic::div_mod::lemma_small_mod(p.selected as nat, n as nat);
    assert(0 <= d < n);
    lemma_previous_wraps(d, n);
    vstd::arithmetic::div_mod::lemma_small_mod(d as nat, n as nat);
    let t = key_step(s, Key { code: KeyCode::Down, ctrl: false }).0;
    assert(t.search->0 == edit_step(p, Key { code: KeyCode::Down, ctrl: false }));
    assert(t.search->0.selected == d as usize);
    assert(t.search->0.results == p.results);
    let u = key_step(t, Key { code: KeyCode::Up, ctrl: false }).0;
    assert(u.search->0 == edit_step(t.search->0, Key { code: KeyCode::Up, ctrl: false }));
    assert(u.search->0.selected == ((d + n - 1) % n) as usize);
}

/// A picked place that fails to load says so in the status bar for a while, instead of
/// silently reverting to the last good location.
pub proof fn lemma_failed_pick_explained(s: AppView, e: Seq<char>, now: u64)
    requires
        s.pending_location is Some,
    ensures
        ({
            let t = update_step(s, UpdateView::Weather(Err(e)), now);
            &&& t.pending_location is None
            &&& freshness_text(t, now) == "could not load that location: "@ + e
            &&& shown_location(t) == match s.weather {
                Some(w) => Some(w.location),
                None => None::<LocationView>,
            }
        }),
{
}

/// The status bar never runs past the terminal's width.
pub proof fn lemma_status_fits(s: AppView, width: nat, now: u64)
    ensures
        status_text(s, width, now).len() <= width,
{
    let (long, short) = location_names(shown_location(s));
    lemma_first_fitting_fits(status_ladder(long, short, freshness_text(s, now)), width, truncated(short, width));
}

/// With the picker closed, `i` does what `d` does: each flips the detail panel, leaves
/// the rest of the state as it was and sends nothing, so pressing either twice restores
/// the panel.
pub proof fn lemma_details_toggle(s: AppView, ctrl: bool)
    requires
        s.search is None,
    ensures
        key_step(s, Key { code: KeyCode::Char('i'), ctrl: false }) == key_step(
            s,
            Key { code: KeyCode::Char('d'), ctrl: false },
        ),
        ({
            let (t, r) = key_step(s, Key { code: KeyCode::Char('i'), ctrl });
            &&& r is None
            &&& t.show_details == !s.show_details
            &&& t == AppView { show_details: t.show_details, ..s }
            &&& key_step(t, Key { code: KeyCode::Char('i'), ctrl }).0 == s
        }),
        ({
            let (t, r) = key_step(s, Key { code: KeyCode::Char('d'), ctrl });
            &&& r is None
            &&& t.show_details == !s.show_details
            &&& t == AppView { show_details: t.show_details, ..s }
            &&& key_step(t, Key { code: KeyCode::Char('d'), ctrl }).0 == s
        }),
{
}

/// Every new reading is stamped with the time it arrived, whatever the stamp was
/// before, so the status bar counts from the latest reading; the reading replaces the
/// old one and clears the error and the pending pick.
pub proof fn lemma_reading_restamps(s: AppView, w: WeatherView, now: u64)
    ensures
        ({
            let t = update_step(s, UpdateView::Weather(Ok(w)), now);
            &&& t.last_updated == Some(now)
            &&& t.weather == Some(w)
            &&& t.error is None
            &&& t.pending_location is None
            &&& t.search == s.search && t.notice == s.notice && t.show_details == s.show_details
            &&& elapsed_ms(t.last_updated->0, now) == 0
        }),
{
}

} // verus!
