//! Observing-program constraints with their configuration defaults.

use vstd::prelude::*;

verus! {

/// Limits applied when selecting observation targets.
#[derive(Debug, Clone, PartialEq, Eq, Structural)]
pub struct Constraints {
    pub min_altitude: i64,
    pub max_altitude: i64,
    pub min_size: i64,
    pub max_size: i64,
    pub moon_separation: i64,
    pub frac_observable_time: i64,
    pub max_targets: i64,
    pub use_darkness: bool,
}

pub fn default_min_altitude() -> (r: i64)
    ensures
        r == 20,
{
    20
}

pub fn default_max_altitude() -> (r: i64)
    ensures
        r == 80,
{
    80
}

pub fn default_min_size() -> (r: i64)
    ensures
        r == 10,
{
    10
}

pub fn default_max_size() -> (r: i64)
    ensures
        r == 300,
{
    300
}

pub fn default_moon_separation() -> (r: i64)
    ensures
        r == 45,
{
    45
}

pub fn default_frac_observable_time() -> (r: i64)
    ensures
        r == 50,
{
    50
}

pub fn default_max_targets() -> (r: i64)
    ensures
        r == 50,
{
    50
}

pub fn default_use_darkness() -> (r: bool)
    ensures
        r == false,
{
    false
}

impl Default for Constraints {
    /// Constraints populated with the configuration defaults.
    fn default() -> (r: Constraints)
        ensures
            r.min_altitude == 20,
            r.max_altitude == 80,
            r.min_size == 10,
            r.max_size == 300,
            r.moon_separation == 45,
            r.frac_observable_time == 50,
            r.max_targets == 50,
            r.use_darkness == false,
    {
        Constraints {
            min_altitude: default_min_altitude(),
            max_altitude: default_max_altitude(),
            min_size: default_min_size(),
            max_size: default_max_size(),
            moon_separation: default_moon_separation(),
            frac_observable_time: default_frac_observable_time(),
            max_targets: default_max_targets(),
            use_darkness: default_use_darkness(),
        }
    }
}

impl Constraints {
    /// Builder that replaces every field at once.
    pub fn new(
        self,
        min_altitude: i64,
        max_altitude: i64,
        min_size: i64,
        max_size: i64,
        moon_separation: i64,
        frac_observable_time: i64,
        max_targets: i64,
        use_darkness: bool,
    ) -> (r: Constraints)
        ensures
            r == (Constraints {
                min_altitude,
                max_altitude,
                min_size,
                max_size,
                moon_separation,
                frac_observable_time,
                max_targets,
                use_darkness,
            }),
    {
        Constraints {
            min_altitude,
            max_altitude,
            min_size,
            max_size,
            moon_separation,
            frac_observable_time,
            max_targets,
            use_darkness,
        }
    }
}

} // verus!
