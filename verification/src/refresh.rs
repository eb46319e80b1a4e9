//! The refresh loop's decisions: which place the first fetch asks for, and which place
//! each later refresh asks for.
use vstd::prelude::*;

use crate::app::opt_view;
use crate::net::model::{Location, LocationView, WeatherData, WeatherView};

verus! {

/// Seconds between two refreshes when nothing asks for one sooner.
pub const REFRESH_INTERVAL_SECS: u64 = 600;

/// What the refresh loop is told between refreshes.
#[derive(Debug)]
pub enum Fetch {
    /// Refresh now, for the same place.
    Now,
    /// Refresh now, and for this place from now on.
    From(Location),
}

pub enum FetchView {
    Now,
    From(LocationView),
}

impl View for Fetch {
    type V = FetchView;

    open spec fn view(&self) -> FetchView {
        match self {
            Fetch::Now => FetchView::Now,
            Fetch::From(l) => FetchView::From(l@),
        }
    }
}

/// The place the first fetch asks for: coordinates given on the command line beat the
/// remembered place; with neither, `None` leaves it to IP detection.
pub open spec fn starting_place(given: Option<LocationView>, saved: Option<LocationView>) -> Option<LocationView> {
    match given {
        Some(l) => Some(l),
        None => saved,
    }
}

/// The place asked for after a fetch for `place` came back with `result`: a reading pins
/// the place it was taken at; a failure keeps the place asked for.
pub open spec fn pinned(place: Option<LocationView>, result: Result<WeatherView, Seq<char>>) -> Option<LocationView> {
    match result {
        Ok(w) => Some(w.location),
        Err(_) => place,
    }
}

/// The place asked for after the loop is told `msg`.
pub open spec fn followed(place: Option<LocationView>, msg: FetchView) -> Option<LocationView> {
    match msg {
        FetchView::Now => place,
        FetchView::From(l) => Some(l),
    }
}

pub open spec fn result_view(r: Result<WeatherData, String>) -> Result<WeatherView, Seq<char>> {
    match r {
        Ok(w) => Ok(w@),
        Err(e) => Err(e@),
    }
}

/// The place the first fetch asks for (see `starting_place`).
pub fn start_location(given: Option<Location>, saved: Option<Location>) -> (r: Option<Location>)
    ensures
        opt_view(r) == starting_place(opt_view(given), opt_view(saved)),
{
    match given {
        Some(l) => Some(l),
        None => saved,
    }
}

/// The place the next refresh asks for once a fetch for `place` came back with `result`,
/// so that a refresh cannot drift to another city (see `pinned`).
pub fn pinned_after(place: Option<Location>, result: &Result<WeatherData, String>) -> (r: Option<Location>)
    ensures
        opt_view(r) == pinned(opt_view(place), result_view(*result)),
{
    match result {
        Ok(w) => Some(w.location.clone()),
        Err(_) => place,
    }
}

/// The place the next refresh asks for once the loop is told `msg` (see `followed`).
pub fn after_message(place: Option<Location>, msg: Fetch) -> (r: Option<Location>)
    ensures
        opt_view(r) == followed(opt_view(place), msg@),
{
    match msg {
        Fetch::Now => place,
        Fetch::From(l) => Some(l),
    }
}

/// Once a reading has come in, refreshes keep asking for the place it was taken at, however
/// many times the loop is told to refresh and however many later fetches fail, until
/// another place is picked.
pub proof fn lemma_refreshes_stay_put(
    place: Option<LocationView>,
    w: WeatherView,
    later: Seq<Result<WeatherView, Seq<char>>>,
)
    requires
        forall|i: int| 0 <= i < later.len() ==> later[i] is Err,
    ensures
        refreshed(pinned(place, Ok(w)), later) == Some(w.location),
    decreases later.len(),
{
    if later.len() > 0 {
        lemma_refreshes_stay_put(place, w, later.drop_last());
    }
}

/// The place asked for after a run of plain refreshes that came back with `results`.
pub open spec fn refreshed(place: Option<LocationView>, results: Seq<Result<WeatherView, Seq<char>>>) -> Option<LocationView>
    decreases results.len(),
{
    if results.len() == 0 {
        place
    } else {
        pinned(followed(refreshed(place, results.drop_last()), FetchView::Now), results.last())
    }
}

} // verus!
