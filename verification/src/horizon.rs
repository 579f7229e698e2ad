//! Horizon-crossing detection on a sampled altitude grid.
//!
//! A grid is a time-ordered sequence of samples `(time, altitude)`;
//! times are in milliseconds on a uniform axis and altitudes in
//! ten-thousandths of a degree, so every comparison and the refinement
//! by linear interpolation is exact integer arithmetic.

use vstd::prelude::*;

verus! {

/// Whether a pair of consecutive altitudes crosses the horizon in the
/// requested direction: a rising crossing starts below the threshold
/// and ends at or above it, a setting crossing starts above and ends
/// at or below.
pub open spec fn spec_crosses(prev_alt: int, cur_alt: int, horizon: int, is_rising: bool) -> bool {
    if is_rising {
        prev_alt < horizon && cur_alt >= horizon
    } else {
        prev_alt > horizon && cur_alt <= horizon
    }
}

/// All crossings of a grid, in time order: one entry
/// `(t_before, alt_before, t_after, alt_after)` for each consecutive
/// pair of samples that brackets the threshold.
pub open spec fn spec_crossings(g: Seq<(i64, i64)>, horizon: int, is_rising: bool) -> Seq<
    (i64, i64, i64, i64),
>
    decreases g.len(),
{
    if g.len() < 2 {
        Seq::empty()
    } else {
        let prefix = spec_crossings(g.drop_last(), horizon, is_rising);
        let p = g[g.len() - 2];
        let q = g[g.len() - 1];
        if spec_crosses(p.1 as int, q.1 as int, horizon, is_rising) {
            prefix.push((p.0, p.1, q.0, q.1))
        } else {
            prefix
        }
    }
}

/// Whether `entry` is the bracketing pair of samples at position `i`
/// of the grid, crossing the threshold in the given direction.
pub open spec fn spec_crossing_at(
    g: Seq<(i64, i64)>,
    horizon: int,
    is_rising: bool,
    entry: (i64, i64, i64, i64),
    i: int,
) -> bool {
    1 <= i < g.len() && entry == (g[i - 1].0, g[i - 1].1, g[i].0, g[i].1) && spec_crosses(
        g[i - 1].1 as int,
        g[i].1 as int,
        horizon,
        is_rising,
    )
}

/// Every crossing the scan reports is a pair of adjacent grid samples
/// that brackets the threshold.
pub proof fn lemma_crossing_entry_adjacent(g: Seq<(i64, i64)>, horizon: int, is_rising: bool, k: int)
    requires
        0 <= k < spec_crossings(g, horizon, is_rising).len(),
    ensures
        exists|i: int|
            spec_crossing_at(g, horizon, is_rising, spec_crossings(g, horizon, is_rising)[k], i),
    decreases g.len(),
{
    let cs = spec_crossings(g, horizon, is_rising);
    let prefix = spec_crossings(g.drop_last(), horizon, is_rising);
    if k < prefix.len() {
        lemma_crossing_entry_adjacent(g.drop_last(), horizon, is_rising, k);
        let i = choose|i: int| spec_crossing_at(g.drop_last(), horizon, is_rising, prefix[k], i);
        assert(spec_crossing_at(g, horizon, is_rising, cs[k], i));
    } else {
        let i = g.len() - 1;
        assert(spec_crossing_at(g, horizon, is_rising, cs[k], i));
    }
}

/// Scans consecutive sample pairs for crossings of the threshold in the
/// given direction and returns every bracketing pair, in time order.
pub fn cross_horizon(grid: &Vec<(i64, i64)>, horizon: i64, is_rising: bool) -> (r: Vec<
    (i64, i64, i64, i64),
>)
    ensures
        r@ == spec_crossings(grid@, horizon as int, is_rising),
{
    let mut out: Vec<(i64, i64, i64, i64)> = Vec::new();
    if grid.len() < 2 {
        return out;
    }
    let mut i: usize = 1;
    while i < grid.len()
        invariant
            1 <= i <= grid@.len(),
            2 <= grid@.len(),
            out@ == spec_crossings(grid@.take(i as int), horizon as int, is_rising),
        decreases grid@.len() - i,
    {
        let prev = grid[i - 1];
        let cur = grid[i];
        let crossed: bool = if is_rising {
            prev.1 < horizon && cur.1 >= horizon
        } else {
            prev.1 > horizon && cur.1 <= horizon
        };
        proof {
            assert(grid@.take(i + 1 as int).drop_last() =~= grid@.take(i as int));
            assert(grid@.take(i + 1 as int)[i as int] == grid@[i as int]);
            assert(grid@.take(i + 1 as int)[i - 1 as int] == grid@[i - 1 as int]);
        }
        if crossed {
            out.push((prev.0, prev.1, cur.0, cur.1));
        }
        i = i + 1;
    }
    proof {
        assert(grid@.take(grid@.len() as int) =~= grid@);
    }
    out
}

/// Linear interpolation between the bracketing samples: the instant at
/// which the straight line from `(jd_before, alt_before)` to
/// `(jd_after, alt_after)` meets the threshold, rounded down to the
/// time unit.  Division is by the altitude span, which a genuine
/// bracketing makes nonzero, so the slope is never degenerate.
pub open spec fn spec_interpolate(
    jd_before: int,
    jd_after: int,
    alt_before: int,
    alt_after: int,
    horizon: int,
) -> int {
    if alt_after >= alt_before {
        jd_after - ((alt_after - horizon) * (jd_after - jd_before)) / (alt_after - alt_before)
    } else {
        jd_after - ((horizon - alt_after) * (jd_after - jd_before)) / (alt_before - alt_after)
    }
}

/// Refines a detected crossing to an instant between the two samples.
pub fn two_point_interpolation(
    jd_before: i64,
    jd_after: i64,
    alt_before: i64,
    alt_after: i64,
    horizon: i64,
) -> (t: i64)
    requires
        jd_before < jd_after,
        jd_after - jd_before <= 200_000_000,
        -10_000_000 <= alt_before <= 10_000_000,
        -10_000_000 <= alt_after <= 10_000_000,
        -10_000_000 <= horizon <= 10_000_000,
        spec_crosses(alt_before as int, alt_after as int, horizon as int, true) || spec_crosses(
            alt_before as int,
            alt_after as int,
            horizon as int,
            false,
        ),
    ensures
        t as int == spec_interpolate(
            jd_before as int,
            jd_after as int,
            alt_before as int,
            alt_after as int,
            horizon as int,
        ),
        jd_before <= t <= jd_after,
{
    let span: u64 = (jd_after - jd_before) as u64;
    let q: u64 = if alt_after >= alt_before {
        assert(alt_before < horizon && horizon <= alt_after);
        let num: u64 = (alt_after - horizon) as u64;
        let den: u64 = (alt_after - alt_before) as u64;
        proof {
            lemma_interpolation_quotient(
                jd_after - jd_before,
                alt_after - horizon,
                alt_after - alt_before,
            );
        }
        num * span / den
    } else {
        assert(alt_after <= horizon && horizon < alt_before);
        let num: u64 = (horizon - alt_after) as u64;
        let den: u64 = (alt_before - alt_after) as u64;
        proof {
            lemma_interpolation_quotient(
                jd_after - jd_before,
                horizon - alt_after,
                alt_before - alt_after,
            );
        }
        num * span / den
    };
    jd_after - (q as i64)
}

/// The interpolated offset stays within the sampling interval and its
/// product never overflows the machine arithmetic.
proof fn lemma_interpolation_quotient(span: int, num: int, den: int)
    requires
        0 < span <= 200_000_000,
        0 <= num <= den,
        0 < den <= 20_000_000,
    ensures
        0 <= num * span <= 4_000_000_000_000_000,
        0 <= (num * span) / den <= span,
{
    assert(0 <= num * span <= 4_000_000_000_000_000) by (nonlinear_arith)
        requires
            0 < span <= 200_000_000,
            0 <= num <= 20_000_000,
    ;
    assert(num * span <= den * span) by (nonlinear_arith)
        requires
            0 <= num <= den,
            0 < span,
    ;
    assert((num * span) / den >= 0) by {
        vstd::arithmetic::div_mod::lemma_div_pos_is_pos(num * span, den);
    }
    assert((num * span) / den <= span) by {
        vstd::arithmetic::div_mod::lemma_div_is_ordered(num * span, den * span, den);
        vstd::arithmetic::div_mod::lemma_div_multiples_vanish(span, den);
        assert(den * span == span * den) by (nonlinear_arith);
    }
}

/// Bounds on every sample of a grid, and strictly increasing sample
/// times: what the interpolation step needs of the sampler.
pub open spec fn spec_grid_wf(g: Seq<(i64, i64)>) -> bool {
    &&& forall|i: int| 0 <= i < g.len() ==> -10_000_000 <= (#[trigger] g[i]).1 <= 10_000_000
    &&& forall|i: int|
        1 <= i < g.len() ==> (#[trigger] g[i]).0 - g[i - 1].0 <= 200_000_000 && g[i - 1].0 < g[i].0
}

/// The interpolated instant of a night's first qualifying crossing,
/// or nothing when the night has no crossing in that direction.
pub open spec fn spec_first_event(g: Seq<(i64, i64)>, horizon: int, is_rising: bool) -> Option<
    int,
> {
    let cs = spec_crossings(g, horizon, is_rising);
    if cs.len() == 0 {
        None
    } else {
        Some(spec_interpolate(cs[0].0 as int, cs[0].2 as int, cs[0].1 as int, cs[0].3 as int, horizon))
    }
}

/// Scans a night's grid for the first qualifying crossing and refines
/// it by linear interpolation; reports nothing when the body never
/// crosses the threshold that night.
pub fn first_event(grid: &Vec<(i64, i64)>, horizon: i64, is_rising: bool) -> (r: Option<i64>)
    requires
        spec_grid_wf(grid@),
        -10_000_000 <= horizon <= 10_000_000,
    ensures
        r matches Some(t) ==> spec_first_event(grid@, horizon as int, is_rising) == Some(t as int),
        r is None <==> spec_first_event(grid@, horizon as int, is_rising) is None,
{
    let v = cross_horizon(grid, horizon, is_rising);
    if v.len() == 0 {
        None
    } else {
        let e = v[0];
        proof {
            lemma_crossing_entry_adjacent(grid@, horizon as int, is_rising, 0);
            let i = choose|i: int|
                spec_crossing_at(
                    grid@,
                    horizon as int,
                    is_rising,
                    spec_crossings(grid@, horizon as int, is_rising)[0],
                    i,
                );
            assert(1 <= i < grid@.len());
            assert(e == (grid@[i - 1].0, grid@[i - 1].1, grid@[i].0, grid@[i].1));
            assert(-10_000_000 <= grid@[i - 1].1 <= 10_000_000);
            assert(-10_000_000 <= grid@[i].1 <= 10_000_000);
            assert(grid@[i - 1].0 < grid@[i].0 && grid@[i].0 - grid@[i - 1].0 <= 200_000_000);
        }
        Some(two_point_interpolation(e.0, e.2, e.1, e.3, horizon))
    }
}

/// The first event found over successive nights, tried in the order
/// given; a night without a crossing passes the search to the next.
pub open spec fn spec_search_nights(
    nights: Seq<Vec<(i64, i64)>>,
    horizon: int,
    is_rising: bool,
) -> Option<int>
    decreases nights.len(),
{
    if nights.len() == 0 {
        None
    } else if spec_first_event(nights[0]@, horizon, is_rising) is Some {
        spec_first_event(nights[0]@, horizon, is_rising)
    } else {
        spec_search_nights(nights.drop_first(), horizon, is_rising)
    }
}

/// Tries each night's grid in the order given and returns the first
/// night's refined crossing instant, or nothing when every night is
/// free of crossings in the requested direction.
pub fn search_nights(nights: &Vec<Vec<(i64, i64)>>, horizon: i64, is_rising: bool) -> (r: Option<
    i64,
>)
    requires
        forall|k: int| 0 <= k < nights@.len() ==> spec_grid_wf((#[trigger] nights@[k])@),
        -10_000_000 <= horizon <= 10_000_000,
    ensures
        r matches Some(t) ==> spec_search_nights(nights@, horizon as int, is_rising) == Some(
            t as int,
        ),
        r is None <==> spec_search_nights(nights@, horizon as int, is_rising) is None,
{
    let mut i: usize = 0;
    proof {
        assert(nights@.skip(0) =~= nights@);
    }
    while i < nights.len()
        invariant
            0 <= i <= nights@.len(),
            forall|k: int| 0 <= k < nights@.len() ==> spec_grid_wf((#[trigger] nights@[k])@),
            -10_000_000 <= horizon <= 10_000_000,
            spec_search_nights(nights@.skip(i as int), horizon as int, is_rising)
                == spec_search_nights(nights@, horizon as int, is_rising),
        decreases nights@.len() - i,
    {
        let night = &nights[i];
        proof {
            assert(nights@.skip(i as int)[0] == nights@[i as int]);
            assert(nights@.skip(i as int).drop_first() =~= nights@.skip(i as int + 1));
        }
        let ev = first_event(night, horizon, is_rising);
        match ev {
            Some(t) => {
                return Some(t);
            },
            None => {},
        }
        i = i + 1;
    }
    proof {
        assert(nights@.skip(nights@.len() as int) =~= Seq::<Vec<(i64, i64)>>::empty());
    }
    None
}

} // verus!
