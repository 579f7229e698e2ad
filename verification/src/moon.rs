//! Moon events: rise and set of the Moon past its visibility threshold.

use vstd::prelude::*;
use crate::horizon::spec_first_event;
use crate::horizon::spec_grid_wf;

verus! {

/// Terminal classification of a Moon event search.
#[derive(Debug, Clone, Copy, PartialEq, Eq, Structural)]
pub enum MoonRS {
    NeverRise,
    NeverSet,
}

/// Altitude below which the Moon is taken as invisible, in
/// ten-thousandths of a degree: an empirical +0.125 deg glow cutoff.
pub const MOON_VISIBILITY_TMDEG: i64 = 1250;

/// Searches one night's Moon altitude grid for the first rising
/// crossing of the visibility threshold; a night the Moon stays out
/// of sight reports `NeverRise`, an expected outcome, not an error.
pub fn moonrise_utc_grid(grid: &Vec<(i64, i64)>) -> (r: Result<i64, MoonRS>)
    requires
        spec_grid_wf(grid@),
    ensures
        r matches Ok(t) ==> spec_first_event(grid@, MOON_VISIBILITY_TMDEG as int, true) == Some(
            t as int,
        ),
        r matches Err(e) ==> e == MoonRS::NeverRise && spec_first_event(
            grid@,
            MOON_VISIBILITY_TMDEG as int,
            true,
        ) is None,
{
    match crate::horizon::first_event(grid, MOON_VISIBILITY_TMDEG, true) {
        Some(t) => Ok(t),
        None => Err(MoonRS::NeverRise),
    }
}

/// The setting counterpart of `moonrise_utc_grid`.
pub fn moonset_utc_grid(grid: &Vec<(i64, i64)>) -> (r: Result<i64, MoonRS>)
    requires
        spec_grid_wf(grid@),
    ensures
        r matches Ok(t) ==> spec_first_event(grid@, MOON_VISIBILITY_TMDEG as int, false) == Some(
            t as int,
        ),
        r matches Err(e) ==> e == MoonRS::NeverSet && spec_first_event(
            grid@,
            MOON_VISIBILITY_TMDEG as int,
            false,
        ) is None,
{
    match crate::horizon::first_event(grid, MOON_VISIBILITY_TMDEG, false) {
        Some(t) => Ok(t),
        None => Err(MoonRS::NeverSet),
    }
}

} // verus!
