//! Sun events: rise and set of the Sun through a chosen twilight band.
//!
//! The altitude sampling that feeds these searches is done by the caller
//! in floating point; the searches themselves run on fixed-point grids
//! (`horizon` module units) and are verified exactly.

use vstd::prelude::*;
use crate::horizon::spec_first_event;
use crate::horizon::spec_grid_wf;
use crate::horizon::spec_search_nights;

verus! {

/// Terminal classification of a Sun event search.
#[derive(Debug, Clone, Copy, PartialEq, Eq, Structural)]
pub enum SunRS {
    NeverRise,
    NeverSet,
}

/// Altitude threshold defining a Sun event, in ten-thousandths of a
/// degree below the geometric horizon.
#[derive(Debug, Clone, Copy, PartialEq, Eq, Structural)]
pub enum TwilightType {
    RiseSet,
    CivilTwilight,
    NauticalTwilight,
    AstronomicalTwilight,
}

impl TwilightType {
    /// The band's altitude threshold in ten-thousandths of a degree:
    /// rise/set -0.8333 deg, civil -6 deg, nautical -12 deg,
    /// astronomical -18 deg.
    pub fn angle_tmdeg(&self) -> (r: i64)
        ensures
            r == spec_angle_tmdeg(*self),
    {
        match self {
            TwilightType::RiseSet => -8333,
            TwilightType::CivilTwilight => -60000,
            TwilightType::NauticalTwilight => -120000,
            TwilightType::AstronomicalTwilight => -180000,
        }
    }

    /// Human-readable name of the band.
    pub fn description(&self) -> (r: &'static str)
        ensures
            (*self is RiseSet) ==> r@ == "Sunrise/Sunset"@,
            (*self is CivilTwilight) ==> r@ == "Civil Twilight"@,
            (*self is NauticalTwilight) ==> r@ == "Nautical Twilight"@,
            (*self is AstronomicalTwilight) ==> r@ == "Astronomical Twilight"@,
    {
        match self {
            TwilightType::RiseSet => "Sunrise/Sunset",
            TwilightType::CivilTwilight => "Civil Twilight",
            TwilightType::NauticalTwilight => "Nautical Twilight",
            TwilightType::AstronomicalTwilight => "Astronomical Twilight",
        }
    }
}

/// The band's altitude threshold in ten-thousandths of a degree.
pub open spec fn spec_angle_tmdeg(t: TwilightType) -> int {
    match t {
        TwilightType::RiseSet => -8333,
        TwilightType::CivilTwilight => -60000,
        TwilightType::NauticalTwilight => -120000,
        TwilightType::AstronomicalTwilight => -180000,
    }
}

/// Searches one night's Sun altitude grid for the first rising
/// crossing of the band threshold and refines it by interpolation;
/// a night the Sun spends entirely away from the threshold reports
/// `NeverRise`, the expected polar outcome, not an error.
pub fn sunrise_utc_grid(grid: &Vec<(i64, i64)>, horizon: i64) -> (r: Result<i64, SunRS>)
    requires
        spec_grid_wf(grid@),
        -10_000_000 <= horizon <= 10_000_000,
    ensures
        r matches Ok(t) ==> spec_first_event(grid@, horizon as int, true) == Some(t as int),
        r matches Err(e) ==> e == SunRS::NeverRise && spec_first_event(grid@, horizon as int, true)
            is None,
{
    match crate::horizon::first_event(grid, horizon, true) {
        Some(t) => Ok(t),
        None => Err(SunRS::NeverRise),
    }
}

/// The setting counterpart of `sunrise_utc_grid`: the night's first
/// downward crossing, or `NeverSet` under the midnight sun.
pub fn sunset_utc_grid(grid: &Vec<(i64, i64)>, horizon: i64) -> (r: Result<i64, SunRS>)
    requires
        spec_grid_wf(grid@),
        -10_000_000 <= horizon <= 10_000_000,
    ensures
        r matches Ok(t) ==> spec_first_event(grid@, horizon as int, false) == Some(t as int),
        r matches Err(e) ==> e == SunRS::NeverSet && spec_first_event(grid@, horizon as int, false)
            is None,
{
    match crate::horizon::first_event(grid, horizon, false) {
        Some(t) => Ok(t),
        None => Err(SunRS::NeverSet),
    }
}

/// Sunrise search forward in time: the nights must be the successive
/// target nights starting at the query instant's night, one grid per
/// calendar day tried.
pub fn next_sunrise_utc(nights: &Vec<Vec<(i64, i64)>>, horizon: i64) -> (r: Result<i64, SunRS>)
    requires
        forall|k: int| 0 <= k < nights@.len() ==> spec_grid_wf((#[trigger] nights@[k])@),
        -10_000_000 <= horizon <= 10_000_000,
    ensures
        r matches Ok(t) ==> spec_search_nights(nights@, horizon as int, true) == Some(t as int),
        r matches Err(e) ==> e == SunRS::NeverRise && spec_search_nights(
            nights@,
            horizon as int,
            true,
        ) is None,
{
    match crate::horizon::search_nights(nights, horizon, true) {
        Some(t) => Ok(t),
        None => Err(SunRS::NeverRise),
    }
}

/// Sunrise search backward in time: the nights must be the successive
/// preceding target nights, most recent first.
pub fn previous_sunrise_utc(nights: &Vec<Vec<(i64, i64)>>, horizon: i64) -> (r: Result<i64, SunRS>)
    requires
        forall|k: int| 0 <= k < nights@.len() ==> spec_grid_wf((#[trigger] nights@[k])@),
        -10_000_000 <= horizon <= 10_000_000,
    ensures
        r matches Ok(t) ==> spec_search_nights(nights@, horizon as int, true) == Some(t as int),
        r matches Err(e) ==> e == SunRS::NeverRise && spec_search_nights(
            nights@,
            horizon as int,
            true,
        ) is None,
{
    match crate::horizon::search_nights(nights, horizon, true) {
        Some(t) => Ok(t),
        None => Err(SunRS::NeverRise),
    }
}

/// Sunset search forward in time over successive target nights.
pub fn next_sunset_utc(nights: &Vec<Vec<(i64, i64)>>, horizon: i64) -> (r: Result<i64, SunRS>)
    requires
        forall|k: int| 0 <= k < nights@.len() ==> spec_grid_wf((#[trigger] nights@[k])@),
        -10_000_000 <= horizon <= 10_000_000,
    ensures
        r matches Ok(t) ==> spec_search_nights(nights@, horizon as int, false) == Some(t as int),
        r matches Err(e) ==> e == SunRS::NeverSet && spec_search_nights(
            nights@,
            horizon as int,
            false,
        ) is None,
{
    match crate::horizon::search_nights(nights, horizon, false) {
        Some(t) => Ok(t),
        None => Err(SunRS::NeverSet),
    }
}

/// Sunset search backward in time over preceding target nights, most
/// recent first.
pub fn previous_sunset_utc(nights: &Vec<Vec<(i64, i64)>>, horizon: i64) -> (r: Result<i64, SunRS>)
    requires
        forall|k: int| 0 <= k < nights@.len() ==> spec_grid_wf((#[trigger] nights@[k])@),
        -10_000_000 <= horizon <= 10_000_000,
    ensures
        r matches Ok(t) ==> spec_search_nights(nights@, horizon as int, false) == Some(t as int),
        r matches Err(e) ==> e == SunRS::NeverSet && spec_search_nights(
            nights@,
            horizon as int,
            false,
        ) is None,
{
    match crate::horizon::search_nights(nights, horizon, false) {
        Some(t) => Ok(t),
        None => Err(SunRS::NeverSet),
    }
}

/// Of the forward and backward search outcomes, picks whichever event
/// lies closer in time to the query instant; a strict tie keeps the
/// backward event.  A direction that found nothing cedes to the
/// other; when both found nothing the forward outcome is reported.
pub fn nearest_event_utc(next: Result<i64, SunRS>, previous: Result<i64, SunRS>, jd: i64) -> (r:
    Result<i64, SunRS>)
    requires
        -1_000_000_000_000_000 <= jd <= 1_000_000_000_000_000,
        next matches Ok(t) ==> -1_000_000_000_000_000 <= t <= 1_000_000_000_000_000,
        previous matches Ok(t) ==> -1_000_000_000_000_000 <= t <= 1_000_000_000_000_000,
    ensures
        (next is Ok && previous is Ok) ==> r == (if vstd::math::abs(
            next->Ok_0 as int - jd as int,
        ) < vstd::math::abs(jd as int - previous->Ok_0 as int) {
            next
        } else {
            previous
        }),
        (next is Ok && previous is Err) ==> r == next,
        (next is Err && previous is Ok) ==> r == previous,
        (next is Err && previous is Err) ==> r == next,
{
    match (next, previous) {
        (Ok(n), Ok(p)) => {
            let dn: i64 = if n >= jd {
                n - jd
            } else {
                jd - n
            };
            let dp: i64 = if jd >= p {
                jd - p
            } else {
                p - jd
            };
            if dn < dp {
                Ok(n)
            } else {
                Ok(p)
            }
        },
        (Ok(n), Err(_)) => Ok(n),
        (Err(_), Ok(p)) => Ok(p),
        (Err(e), Err(_)) => Err(e),
    }
}

/// Direction in which an event search walks away from the query instant.
#[derive(Debug, Clone, Copy, PartialEq, Eq, Structural)]
pub enum RiseSetType {
    Nearest,
    Next,
    Previous,
}

impl RiseSetType {
    /// Human-readable name of the search direction.
    pub fn to_string(&self) -> (r: &'static str)
        ensures
            (*self is Nearest) ==> r@ == "Nearest"@,
            (*self is Next) ==> r@ == "Next"@,
            (*self is Previous) ==> r@ == "Previous"@,
    {
        match self {
            RiseSetType::Nearest => "Nearest",
            RiseSetType::Next => "Next",
            RiseSetType::Previous => "Previous",
        }
    }
}

} // verus!
