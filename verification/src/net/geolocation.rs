//! Finding the user by IP address: what the two services' answers amount to.
use vstd::prelude::*;

use crate::net::model::{Location, LocationView};
use crate::text::{owned, push_str, str_is};

verus! {

pub open spec fn opt_text(o: Option<String>) -> Option<Seq<char>> {
    match o {
        Some(s) => Some(s@),
        None => None,
    }
}

pub open spec fn text_or(o: Option<Seq<char>>, d: Seq<char>) -> Seq<char> {
    match o {
        Some(s) => s,
        None => d,
    }
}

/// The location an IP service reported, given the fields of its answer; `failed` says
/// whether the service said it failed, and the messages name what is missing.
pub open spec fn reported_location(
    failed: bool,
    failure: Seq<char>,
    city: Option<Seq<char>>,
    region: Option<Seq<char>>,
    latitude_bits: Option<u64>,
    longitude_bits: Option<u64>,
    no_latitude: Seq<char>,
    no_longitude: Seq<char>,
) -> Result<LocationView, Seq<char>> {
    if failed {
        Err(failure)
    } else if latitude_bits is None {
        Err(no_latitude)
    } else if longitude_bits is None {
        Err(no_longitude)
    } else {
        Ok(
            LocationView {
                city: text_or(city, "Unknown"@),
                region: text_or(region, Seq::empty()),
                latitude_bits: latitude_bits->0,
                longitude_bits: longitude_bits->0,
            },
        )
    }
}

pub open spec fn location_result(r: Result<Location, String>) -> Result<LocationView, Seq<char>> {
    match r {
        Ok(l) => Ok(l@),
        Err(e) => Err(e@),
    }
}

fn located(
    city: Option<String>,
    region: Option<String>,
    latitude_bits: Option<u64>,
    longitude_bits: Option<u64>,
    no_latitude: &str,
    no_longitude: &str,
) -> (r: Result<Location, String>)
    ensures
        location_result(r) == reported_location(
            false,
            Seq::empty(),
            opt_text(city),
            opt_text(region),
            latitude_bits,
            longitude_bits,
            no_latitude@,
            no_longitude@,
        ),
{
    let city = match city {
        Some(c) => c,
        None => owned("Unknown"),
    };
    let region = match region {
        Some(r) => r,
        None => String::new(),
    };
    match (latitude_bits, longitude_bits) {
        (Some(la), Some(lo)) => Ok(Location { city, region, latitude_bits: la, longitude_bits: lo }),
        (None, _) => Err(owned(no_latitude)),
        (Some(_), None) => Err(owned(no_longitude)),
    }
}

/// The location in an ipwho.is answer, with the coordinates as IEEE-754 bit patterns.
pub fn location_from_ipwho(
    success: Option<bool>,
    city: Option<String>,
    region: Option<String>,
    latitude_bits: Option<u64>,
    longitude_bits: Option<u64>,
) -> (r: Result<Location, String>)
    ensures
        location_result(r) == reported_location(
            success == Some(false),
            "ipwho.is reported failure"@,
            opt_text(city),
            opt_text(region),
            latitude_bits,
            longitude_bits,
            "ipwho.is missing latitude"@,
            "ipwho.is missing longitude"@,
        ),
{
    if let Some(false) = success {
        return Err(owned("ipwho.is reported failure"));
    }
    located(city, region, latitude_bits, longitude_bits, "ipwho.is missing latitude", "ipwho.is missing longitude")
}

/// The location in an ip-api.com answer, with the coordinates as IEEE-754 bit patterns.
pub fn location_from_ip_api(
    status: Option<String>,
    city: Option<String>,
    region_name: Option<String>,
    lat_bits: Option<u64>,
    lon_bits: Option<u64>,
) -> (r: Result<Location, String>)
    ensures
        location_result(r) == reported_location(
            opt_text(status) != Some("success"@),
            "ip-api.com reported failure"@,
            opt_text(city),
            opt_text(region_name),
            lat_bits,
            lon_bits,
            "ip-api.com missing lat"@,
            "ip-api.com missing lon"@,
        ),
{
    let ok = match &status {
        Some(s) => str_is(s.as_str(), "success"),
        None => false,
    };
    if !ok {
        return Err(owned("ip-api.com reported failure"));
    }
    located(city, region_name, lat_bits, lon_bits, "ip-api.com missing lat", "ip-api.com missing lon")
}

/// Why locating failed when both services did.
pub fn both_failed(primary: &str, fallback: &str) -> (r: String)
    ensures
        r@ == primary@ + "; fallback also failed: "@ + fallback@,
{
    let mut r = owned(primary);
    push_str(&mut r, "; fallback also failed: ");
    push_str(&mut r, fallback);
    r
}

/// An IP service that reports coordinates and no failure gives a location whose city is
/// the city it reported ("Unknown" when it named none), whose region is the region it
/// reported (empty when it named none), and whose coordinates are the ones reported.
/// A failure, or a missing coordinate, gives the matching message instead.
pub proof fn lemma_reported_fields_land_in_place(
    failed: bool,
    failure: Seq<char>,
    city: Option<Seq<char>>,
    region: Option<Seq<char>>,
    latitude_bits: Option<u64>,
    longitude_bits: Option<u64>,
    no_latitude: Seq<char>,
    no_longitude: Seq<char>,
)
    ensures
        ({
            let r = reported_location(failed, failure, city, region, latitude_bits, longitude_bits, no_latitude, no_longitude);
            &&& failed ==> r == Err::<LocationView, Seq<char>>(failure)
            &&& !failed && latitude_bits is None ==> r == Err::<LocationView, Seq<char>>(no_latitude)
            &&& !failed && latitude_bits is Some && longitude_bits is None ==> r == Err::<LocationView, Seq<char>>(no_longitude)
            &&& !failed && latitude_bits is Some && longitude_bits is Some ==> {
                &&& r is Ok
                &&& city is Some ==> r->Ok_0.city == city->0
                &&& city is None ==> r->Ok_0.city == "Unknown"@
                &&& region is Some ==> r->Ok_0.region == region->0
                &&& region is None ==> r->Ok_0.region == Seq::<char>::empty()
                &&& r->Ok_0.latitude_bits == latitude_bits->0
                &&& r->Ok_0.longitude_bits == longitude_bits->0
            }
        }),
{
}

} // verus!
