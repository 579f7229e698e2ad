//! Target-selection constraint record used by the report layer.

use vstd::prelude::*;

verus! {

/// A single set of target-selection limits.
#[derive(Debug, Clone, Copy, PartialEq, Eq, Structural)]
pub struct Constraint {
    pub altitude_constraint_min: i64,
    pub altitude_constraint_max: i64,
    pub size_constraint_min: i64,
    pub size_constraint_max: i64,
    pub moon_separation_min: i64,
    pub use_darkness: bool,
    pub fraction_of_time_observable_threshold: i64,
    pub max_number_within_threshold: i64,
}

impl Constraint {
    /// An empty constraint record: every limit zero, darkness unused.
    pub fn new() -> (r: Constraint)
        ensures
            r.altitude_constraint_min == 0,
            r.altitude_constraint_max == 0,
            r.size_constraint_min == 0,
            r.size_constraint_max == 0,
            r.moon_separation_min == 0,
            r.use_darkness == false,
            r.fraction_of_time_observable_threshold == 0,
            r.max_number_within_threshold == 0,
    {
        Constraint {
            altitude_constraint_min: 0,
            altitude_constraint_max: 0,
            size_constraint_min: 0,
            size_constraint_max: 0,
            moon_separation_min: 0,
            use_darkness: false,
            fraction_of_time_observable_threshold: 0,
            max_number_within_threshold: 0,
        }
    }

    /// Builder that replaces every limit at once.
    pub fn constraint(
        self,
        altitude_constraint_min: i64,
        altitude_constraint_max: i64,
        size_constraint_min: i64,
        size_constraint_max: i64,
        moon_separation_min: i64,
        fraction_of_time_observable_threshold: i64,
        max_number_within_threshold: i64,
        use_darkness: bool,
    ) -> (r: Constraint)
        ensures
            r == (Constraint {
                altitude_constraint_min,
                altitude_constraint_max,
                size_constraint_min,
                size_constraint_max,
                moon_separation_min,
                use_darkness,
                fraction_of_time_observable_threshold,
                max_number_within_threshold,
            }),
    {
        Constraint {
            altitude_constraint_min,
            altitude_constraint_max,
            size_constraint_min,
            size_constraint_max,
            moon_separation_min,
            use_darkness,
            fraction_of_time_observable_threshold,
            max_number_within_threshold,
        }
    }
}

} // verus!
