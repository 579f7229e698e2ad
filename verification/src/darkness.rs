//! The darkness window: when both Sun and Moon are far enough below
//! the horizon for deep-sky observation.
//!
//! Over a nightly grid sampled in lockstep for both bodies, an instant
//! is dark when the Sun's altitude is at or below the chosen twilight
//! threshold and the Moon's altitude is at or below its visibility
//! cutoff.  The window is the closed interval from the first to the
//! last dark sample; the degenerate pair `(0, 0)` reports that no
//! instant of the night qualifies.

use vstd::prelude::*;
use crate::moon::MOON_VISIBILITY_TMDEG;

verus! {

/// The observation-darkness predicate at one instant.
pub open spec fn spec_dark_at(sun_alt: int, moon_alt: int, threshold: int) -> bool {
    sun_alt <= threshold && moon_alt <= MOON_VISIBILITY_TMDEG as int
}

/// The sample times at which the night is dark, in grid order.
pub open spec fn spec_dark_times(sun: Seq<(i64, i64)>, moon: Seq<(i64, i64)>, threshold: int) -> Seq<
    i64,
>
    decreases sun.len(),
{
    if sun.len() == 0 || moon.len() < sun.len() {
        Seq::empty()
    } else {
        let prefix = spec_dark_times(sun.drop_last(), moon.drop_last(), threshold);
        let k = sun.len() - 1;
        if spec_dark_at(sun[k].1 as int, moon[k].1 as int, threshold) {
            prefix.push(sun[k].0)
        } else {
            prefix
        }
    }
}

/// Smallest element of a nonempty sequence.
pub open spec fn spec_seq_min(s: Seq<i64>) -> i64
    decreases s.len(),
{
    if s.len() <= 1 {
        s[0]
    } else {
        let m = spec_seq_min(s.drop_last());
        if s[s.len() - 1] < m {
            s[s.len() - 1]
        } else {
            m
        }
    }
}

/// Largest element of a nonempty sequence.
pub open spec fn spec_seq_max(s: Seq<i64>) -> i64
    decreases s.len(),
{
    if s.len() <= 1 {
        s[0]
    } else {
        let m = spec_seq_max(s.drop_last());
        if s[s.len() - 1] > m {
            s[s.len() - 1]
        } else {
            m
        }
    }
}

/// The darkness window of a night: the first and last dark sample
/// times, or `(0, 0)` when no sample is dark.
pub open spec fn spec_darkness_window(
    sun: Seq<(i64, i64)>,
    moon: Seq<(i64, i64)>,
    threshold: int,
) -> (i64, i64) {
    let times = spec_dark_times(sun, moon, threshold);
    if times.len() == 0 {
        (0, 0)
    } else {
        (spec_seq_min(times), spec_seq_max(times))
    }
}

/// Computes the darkness window over a night sampled in lockstep for
/// Sun and Moon.  Returns `(0, 0)` when the predicate never holds:
/// that is the expected outcome, not an error, under a bright moon or
/// polar day.
pub fn darkness_utc(sun: &Vec<(i64, i64)>, moon: &Vec<(i64, i64)>, threshold: i64) -> (r: (
    i64,
    i64,
))
    requires
        sun@.len() == moon@.len(),
    ensures
        r == spec_darkness_window(sun@, moon@, threshold as int),
{
    let mut found: bool = false;
    let mut tmin: i64 = 0;
    let mut tmax: i64 = 0;
    let mut i: usize = 0;
    while i < sun.len()
        invariant
            0 <= i <= sun@.len(),
            sun@.len() == moon@.len(),
            !found ==> spec_dark_times(
                sun@.take(i as int),
                moon@.take(i as int),
                threshold as int,
            ).len() == 0,
            found ==> {
                let times = spec_dark_times(
                    sun@.take(i as int),
                    moon@.take(i as int),
                    threshold as int,
                );
                times.len() > 0 && tmin == spec_seq_min(times) && tmax == spec_seq_max(times)
            },
        decreases sun@.len() - i,
    {
        let s = sun[i];
        let m = moon[i];
        proof {
            assert(sun@.take(i + 1 as int).drop_last() =~= sun@.take(i as int));
            assert(moon@.take(i + 1 as int).drop_last() =~= moon@.take(i as int));
            assert(sun@.take(i + 1 as int)[i as int] == sun@[i as int]);
            assert(moon@.take(i + 1 as int)[i as int] == moon@[i as int]);
        }
        if s.1 <= threshold && m.1 <= MOON_VISIBILITY_TMDEG {
            proof {
                let t_old = spec_dark_times(
                    sun@.take(i as int),
                    moon@.take(i as int),
                    threshold as int,
                );
                let t_new = spec_dark_times(
                    sun@.take(i + 1 as int),
                    moon@.take(i + 1 as int),
                    threshold as int,
                );
                let x = sun@[i as int].0;
                assert(t_new == t_old.push(x));
                assert(t_new.drop_last() =~= t_old);
                assert(t_new[t_new.len() - 1] == x);
            }
            if !found {
                found = true;
                tmin = s.0;
                tmax = s.0;
            } else {
                if s.0 < tmin {
                    tmin = s.0;
                }
                if s.0 > tmax {
                    tmax = s.0;
                }
            }
        }
        i = i + 1;
    }
    proof {
        assert(sun@.take(sun@.len() as int) =~= sun@);
        assert(moon@.take(moon@.len() as int) =~= moon@);
    }
    if found {
        (tmin, tmax)
    } else {
        (0, 0)
    }
}

/// Chooses astronomical darkness when the night offers any, otherwise
/// falls back to nautical darkness, otherwise reports none: true
/// astronomical darkness is unattainable near the solstices at middle
/// and high latitudes.
pub fn darkness_astronomical_or_nautical(astronomical: (i64, i64), nautical: (i64, i64)) -> (r: (
    &'static str,
    (i64, i64),
))
    ensures
        (astronomical != (0i64, 0i64)) ==> r.0@ == "astronomical"@ && r.1 == astronomical,
        (astronomical == (0i64, 0i64) && nautical != (0i64, 0i64)) ==> r.0@ == "nautical"@ && r.1
            == nautical,
        (astronomical == (0i64, 0i64) && nautical == (0i64, 0i64)) ==> r.0@ == "none"@ && r.1 == (
            0i64,
            0i64,
        ),
{
    if astronomical.0 == 0 && astronomical.1 == 0 {
        if nautical.0 == 0 && nautical.1 == 0 {
            ("none", (0, 0))
        } else {
            ("nautical", nautical)
        }
    } else {
        ("astronomical", astronomical)
    }
}

/// The darkness calculator is a pure function of its inputs: two
/// results obtained from identical grids and threshold are identical.
/// There is no hidden state to make a second call differ.
pub proof fn lemma_darkness_idempotent(
    sun: Seq<(i64, i64)>,
    moon: Seq<(i64, i64)>,
    threshold: int,
    r1: (i64, i64),
    r2: (i64, i64),
)
    requires
        r1 == spec_darkness_window(sun, moon, threshold),
        r2 == spec_darkness_window(sun, moon, threshold),
    ensures
        r1 == r2,
{
}

} // verus!
