//! Calendar arithmetic on Julian Day Numbers.
//!
//! A calendar instant is held as integer fields; its continuous Julian
//! Day is represented exactly as the pair of the Julian Day Number of
//! the civil date's noon (`jdn`) and the seconds elapsed since the
//! preceding midnight.  The conversion follows the classical algorithm
//! (Meeus, Astronomical Algorithms, chapter 7): months January and
//! February count as months 13 and 14 of the preceding year, and a
//! century correction applies to dates at or after the Gregorian
//! calendar's adoption on 1582-10-15 (Julian Day Number 2299161).
//! On this integer model the conversion is proved to round-trip
//! exactly over the supported year range.

use vstd::prelude::*;
use crate::text::push_pad2;
use crate::text::push_pad4;
use crate::text::spec_pad2;
use crate::text::spec_pad4;
use crate::text::string_push;
use vstd::string::StringSliceAdditionalSpecFns;

verus! {

/// A calendar date: proleptic year (negative for BCE-style years),
/// month 1..=12, day 1..=31.
#[derive(Debug, Clone, Copy, PartialEq, Eq, Structural, Default)]
pub struct Date {
    pub year: i64,
    pub month: i64,
    pub day: i64,
}

impl Date {
    pub fn new(year: i64, month: i64, day: i64) -> (r: Date)
        ensures
            r == (Date { year, month, day }),
    {
        Date { year, month, day }
    }
}

/// Shifted year: January and February belong to the preceding year.
pub open spec fn spec_shift_year(y: int, m: int) -> int {
    if m > 2 {
        y
    } else {
        y - 1
    }
}

/// Shifted month: January and February count as months 13 and 14.
pub open spec fn spec_shift_month(m: int) -> int {
    if m > 2 {
        m
    } else {
        m + 12
    }
}

/// Whether a date, given in shifted year and month, falls under the
/// Gregorian calendar (at or after 1582-10-15).
pub open spec fn spec_is_gregorian(sy: int, sm: int, d: int) -> bool {
    sy > 1582 || (sy == 1582 && (sm > 10 || (sm == 10 && d >= 15)))
}

/// The Gregorian century correction added to the Julian Day formula.
pub open spec fn spec_gregorian_correction(sy: int) -> int {
    let a = sy / 100;
    2 - a + a / 4
}

/// Julian Day Number of the date's noon, by the closed-form calendar
/// formula.
pub open spec fn spec_jdn(y: int, m: int, d: int) -> int {
    let sy = spec_shift_year(y, m);
    let sm = spec_shift_month(m);
    let b = if spec_is_gregorian(sy, sm, d) {
        spec_gregorian_correction(sy)
    } else {
        0
    };
    (1461 * (sy + 4716)) / 4 + (306 * (sm + 1)) / 10 + d + b - 1524
}

/// The `a` term of the inverse conversion: the day count moved back to
/// the Julian calendar by the alpha century correction when the input
/// lies at or after the Gregorian adoption.
pub open spec fn spec_inverse_a(z: int) -> int {
    if z < 2299161 {
        z
    } else {
        let alpha = (4 * z - 7468865) / 146097;
        z + 1 + alpha - alpha / 4
    }
}

/// The pure-Julian part of the inverse algorithm, applied to the day
/// count after the century correction.
pub open spec fn spec_date_from_bb(bb: int) -> (int, int, int) {
    let c = (100 * bb - 12210) / 36525;
    let d0 = (1461 * c) / 4;
    let e = (10000 * (bb - d0)) / 306001;
    let day = bb - d0 - (306001 * e) / 10000;
    let month = if e < 14 {
        e - 1
    } else {
        e - 13
    };
    let year = if month > 2 {
        c - 4716
    } else {
        c - 4715
    };
    (year, month, day)
}

/// Calendar date (year, month, day) of a Julian Day Number, by the
/// classical inverse algorithm.
pub open spec fn spec_date_from_jdn(z: int) -> (int, int, int) {
    spec_date_from_bb(spec_inverse_a(z) + 1524)
}

/// Whether `y` is a leap year under the calendar rules in effect for
/// that year: the Julian rule (divisible by four) before the 1582
/// adoption, the Gregorian century rule from 1583 on.
pub open spec fn spec_is_leap(y: int) -> bool {
    if y > 1582 {
        y % 4 == 0 && (y % 100 != 0 || y % 400 == 0)
    } else {
        y % 4 == 0
    }
}

/// Days in a month under the rules in effect for that year.
pub open spec fn spec_days_in_month(y: int, m: int) -> int {
    if m == 2 {
        if spec_is_leap(y) {
            29
        } else {
            28
        }
    } else if m == 4 || m == 6 || m == 9 || m == 11 {
        30
    } else {
        31
    }
}

/// A valid calendar date of the supported range: the day exists in its
/// month, and the ten days dropped at the Gregorian adoption
/// (1582-10-05 through 1582-10-14) never existed.
pub open spec fn spec_valid_date(y: int, m: int, d: int) -> bool {
    &&& -4712 <= y <= 9999
    &&& 1 <= m <= 12
    &&& 1 <= d <= spec_days_in_month(y, m)
    &&& !(y == 1582 && m == 10 && 5 <= d <= 14)
}

/// Julian Day Number of the date's noon.
pub fn jdn_from_date(year: i64, month: i64, day: i64) -> (jdn: i64)
    requires
        -4712 <= year <= 9999,
        1 <= month <= 12,
        1 <= day <= 31,
    ensures
        jdn as int == spec_jdn(year as int, month as int, day as int),
        0 <= jdn <= 5_500_000,
{
    let sy: i64 = if month > 2 {
        year
    } else {
        year - 1
    };
    let sm: i64 = if month > 2 {
        month
    } else {
        month + 12
    };
    let n: u64 = (sy + 4716) as u64;
    let f: u64 = 1461 * n / 4;
    let g: u64 = 306 * ((sm + 1) as u64) / 10;
    let gregorian: bool = sy > 1582 || (sy == 1582 && (sm > 10 || (sm == 10 && day >= 15)));
    let b: i64 = if gregorian {
        let a: u64 = (sy as u64) / 100;
        2 - (a as i64) + (a / 4) as i64
    } else {
        0
    };
    (f as i64) + (g as i64) + day + b - 1524
}

/// Calendar date of a Julian Day Number, as (year, month, day).
pub fn date_from_jdn(jdn: i64) -> (r: (i64, i64, i64))
    requires
        0 <= jdn <= 10_000_000,
    ensures
        (r.0 as int, r.1 as int, r.2 as int) == spec_date_from_jdn(jdn as int),
{
    let z: u64 = jdn as u64;
    let a: u64 = if z < 2299161 {
        z
    } else {
        let alpha: u64 = (4 * z - 7468865) / 146097;
        proof {
            assert(alpha / 4 <= alpha) by (nonlinear_arith)
                requires
                    alpha >= 0,
            ;
        }
        z + 1 + alpha - alpha / 4
    };
    let bb: u64 = a + 1524;
    let c: u64 = (100 * bb - 12210) / 36525;
    let d0: u64 = 1461 * c / 4;
    proof {
        lemma_inverse_d0_le_bb(bb as int, c as int, d0 as int);
    }
    let e: u64 = 10000 * (bb - d0) / 306001;
    proof {
        lemma_inverse_day_bounds(bb as int - d0 as int, e as int);
    }
    let day: i64 = (bb - d0 - 306001 * e / 10000) as i64;
    let month: i64 = if e < 14 {
        (e as i64) - 1
    } else {
        (e as i64) - 13
    };
    let year: i64 = if month > 2 {
        (c as i64) - 4716
    } else {
        (c as i64) - 4715
    };
    (year, month, day)
}

/// The quotient `(1461 * c) / 4` never exceeds `bb` when `c` is the
/// century count extracted from `bb`.
proof fn lemma_inverse_d0_le_bb(bb: int, c: int, d0: int)
    requires
        bb >= 1524,
        c == (100 * bb - 12210) / 36525,
        d0 == (1461 * c) / 4,
    ensures
        d0 <= bb - 123,
        0 <= d0,
{
    vstd::arithmetic::div_mod::lemma_fundamental_div_mod(100 * bb - 12210, 36525);
    vstd::arithmetic::div_mod::lemma_fundamental_div_mod(1461 * c, 4);
    vstd::arithmetic::div_mod::lemma_mod_division_less_than_divisor(100 * bb - 12210, 36525);
    vstd::arithmetic::div_mod::lemma_mod_division_less_than_divisor(1461 * c, 4);
}

/// The day term recovered from the month term stays within the span
/// `bb - d0`.
proof fn lemma_inverse_day_bounds(span: int, e: int)
    requires
        span >= 0,
        e == (10000 * span) / 306001,
    ensures
        (306001 * e) / 10000 <= span,
        0 <= e,
{
    vstd::arithmetic::div_mod::lemma_fundamental_div_mod(10000 * span, 306001);
    vstd::arithmetic::div_mod::lemma_mod_division_less_than_divisor(10000 * span, 306001);
    vstd::arithmetic::div_mod::lemma_fundamental_div_mod(306001 * e, 10000);
    vstd::arithmetic::div_mod::lemma_mod_division_less_than_divisor(306001 * e, 10000);
    assert(306001 * e <= 10000 * span);
    assert((306001 * e) / 10000 <= span) by {
        vstd::arithmetic::div_mod::lemma_div_is_ordered(306001 * e, 10000 * span, 10000);
        vstd::arithmetic::div_mod::lemma_div_multiples_vanish(span, 10000);
    }
}

/// The month code of the closed-form formula: the exact value of the
/// day-of-year offset `(306 * (sm + 1)) / 10` for each shifted month,
/// and its agreement with the inverse algorithm's finer-grained
/// constant `(306001 * (sm + 1)) / 10000`.
proof fn lemma_month_code(sm: int)
    requires
        3 <= sm <= 14,
    ensures
        (306 * (sm + 1)) / 10 == spec_month_code(sm),
        (306001 * (sm + 1)) / 10000 == spec_month_code(sm),
{
    vstd::arithmetic::div_mod::lemma_fundamental_div_mod_converse(
        306 * (sm + 1),
        10,
        spec_month_code(sm),
        306 * (sm + 1) - 10 * spec_month_code(sm),
    );
    vstd::arithmetic::div_mod::lemma_fundamental_div_mod_converse(
        306001 * (sm + 1),
        10000,
        spec_month_code(sm),
        306001 * (sm + 1) - 10000 * spec_month_code(sm),
    );
}

/// Day-of-year offset of a shifted month, written out.
pub open spec fn spec_month_code(sm: int) -> int {
    if sm == 3 {
        122
    } else if sm == 4 {
        153
    } else if sm == 5 {
        183
    } else if sm == 6 {
        214
    } else if sm == 7 {
        244
    } else if sm == 8 {
        275
    } else if sm == 9 {
        306
    } else if sm == 10 {
        336
    } else if sm == 11 {
        367
    } else if sm == 12 {
        397
    } else if sm == 13 {
        428
    } else {
        459
    }
}

/// Recovering the shifted month from the day-in-year span: the `e`
/// quotient of the inverse algorithm lands exactly on `sm + 1` for
/// every day the month actually has.
proof fn lemma_month_recovery(sm: int, d: int)
    requires
        3 <= sm <= 14,
        1 <= d <= 31,
        sm == 4 || sm == 6 || sm == 9 || sm == 11 ==> d <= 30,
        sm == 14 ==> d <= 29,
    ensures
        (10000 * ((306 * (sm + 1)) / 10 + d)) / 306001 == sm + 1,
{
    lemma_month_code(sm);
    let g = spec_month_code(sm);
    let x = 10000 * (g + d);
    let r = x - 306001 * (sm + 1);
    assert(0 <= r < 306001);
    vstd::arithmetic::div_mod::lemma_fundamental_div_mod_converse(x, 306001, sm + 1, r);
}

/// The century count is recovered exactly: for a day count assembled
/// from the closed-form formula without the Gregorian correction, the
/// `c` quotient of the inverse algorithm is the shifted year again.
/// A February 29th needs the year-within-cycle congruence that only
/// leap years satisfy; the formula's spare slack is ten days.
proof fn lemma_century_recovery(sy: int, sm: int, d: int)
    requires
        3 <= sm <= 14,
        1 <= d <= 31,
        sm == 14 ==> d <= 29,
        sm == 14 && d == 29 ==> (sy + 4716) % 4 == 3,
        sy + 4716 >= 0,
    ensures
        ({
            let n = sy + 4716;
            let bb = (1461 * n) / 4 + (306 * (sm + 1)) / 10 + d;
            (100 * bb - 12210) / 36525 == n
        }),
{
    let n = sy + 4716;
    let g = (306 * (sm + 1)) / 10;
    let f = (1461 * n) / 4;
    let r4 = (1461 * n) % 4;
    let bb = f + g + d;
    vstd::arithmetic::div_mod::lemma_fundamental_div_mod(1461 * n, 4);
    vstd::arithmetic::div_mod::lemma_mod_division_less_than_divisor(1461 * n, 4);
    lemma_month_code(sm);
    assert(r4 == n % 4) by {
        vstd::arithmetic::div_mod::lemma_mod_multiples_vanish(365 * n, n, 4);
        assert(1461 * n == 4 * (365 * n) + n) by (nonlinear_arith);
    }
    let rem = 100 * d + 100 * g - 25 * r4 - 12210;
    assert(100 * bb - 12210 == n * 36525 + rem) by {
        assert(100 * f == 25 * (1461 * n) - 25 * r4) by (nonlinear_arith)
            requires
                1461 * n == 4 * f + r4,
        ;
        assert(25 * (1461 * n) == 36525 * n) by (nonlinear_arith);
    }
    assert(rem >= 0);
    if sm <= 13 {
        assert(rem < 36525);
    } else if d <= 28 {
        assert(rem < 36525);
    } else {
        assert(n % 4 == 3);
        assert(rem < 36525);
    }
    vstd::arithmetic::div_mod::lemma_fundamental_div_mod_converse(
        100 * bb - 12210,
        36525,
        n,
        rem,
    );
}

/// The pure-Julian inverse undoes the closed-form sum: feeding
/// `F(sy) + G(sm) + d` back through the inverse algorithm returns the
/// calendar date the sum was built from.
proof fn lemma_inverse_of_julian_sum(sy: int, sm: int, d: int)
    requires
        3 <= sm <= 14,
        1 <= d <= 31,
        sm == 4 || sm == 6 || sm == 9 || sm == 11 ==> d <= 30,
        sm == 14 ==> d <= 29,
        sm == 14 && d == 29 ==> (sy + 4716) % 4 == 3,
        sy + 4716 >= 0,
    ensures
        ({
            let bb = (1461 * (sy + 4716)) / 4 + (306 * (sm + 1)) / 10 + d;
            let ym = if sm <= 12 {
                (sy, sm)
            } else {
                (sy + 1, sm - 12)
            };
            spec_date_from_bb(bb) == (ym.0, ym.1, d)
        }),
{
    let n = sy + 4716;
    let g = (306 * (sm + 1)) / 10;
    let f = (1461 * n) / 4;
    let bb = f + g + d;
    lemma_century_recovery(sy, sm, d);
    lemma_month_code(sm);
    lemma_month_recovery(sm, d);
    assert((100 * bb - 12210) / 36525 == n);
    assert(bb - f == g + d);
    assert((10000 * (bb - f)) / 306001 == sm + 1);
    let e = sm + 1;
    assert(bb - f - (306001 * e) / 10000 == d);
}

/// For a date before the Gregorian adoption, the assembled day count
/// stays below the cutover, so the inverse algorithm rightly skips the
/// century correction.
proof fn lemma_julian_below_cutover(sy: int, sm: int, d: int)
    requires
        3 <= sm <= 14,
        1 <= d <= 31,
        sy + 4716 >= 0,
        !spec_is_gregorian(sy, sm, d),
        sy == 1582 && sm == 10 ==> d <= 4,
    ensures
        (1461 * (sy + 4716)) / 4 + (306 * (sm + 1)) / 10 + d - 1524 < 2299161,
{
    let n = sy + 4716;
    let g = (306 * (sm + 1)) / 10;
    let f = (1461 * n) / 4;
    vstd::arithmetic::div_mod::lemma_fundamental_div_mod(1461 * n, 4);
    vstd::arithmetic::div_mod::lemma_mod_division_less_than_divisor(1461 * n, 4);
    lemma_month_code(sm);
    if sy <= 1581 {
        assert(4 * f <= 1461 * 6297) by (nonlinear_arith)
            requires
                4 * f <= 1461 * n,
                n <= 6297,
        ;
    } else {
        assert(sy == 1582 && sm <= 10);
        if sm <= 9 {
            assert(306 * (sm + 1) <= 3060);
        }
    }
}

/// For a date at or after the Gregorian adoption, the assembled day
/// count reaches the cutover, the alpha term of the inverse recovers
/// the century index, and the correction cancels against the forward
/// correction exactly.
proof fn lemma_gregorian_inverse_a(sy: int, sm: int, d: int)
    requires
        3 <= sm <= 14,
        1 <= d <= 31,
        sm == 4 || sm == 6 || sm == 9 || sm == 11 ==> d <= 30,
        sm == 14 ==> d <= 29,
        sm == 14 && d == 29 ==> spec_is_leap(sy + 1),
        spec_is_gregorian(sy, sm, d),
        sy <= 9999,
    ensures
        ({
            let z = spec_jdn_shifted(sy, sm, d);
            z >= 2299161 && spec_inverse_a(z) == (1461 * (sy + 4716)) / 4 + (306 * (sm + 1)) / 10
                + d - 1524
        }),
{
    let n = sy + 4716;
    let g = (306 * (sm + 1)) / 10;
    let f = (1461 * n) / 4;
    let r4 = (1461 * n) % 4;
    let a = sy / 100;
    let ry = sy % 100;
    let ra = a % 4;
    let b = 2 - a + a / 4;
    let z = f + g + d + b - 1524;
    assert(spec_jdn_shifted(sy, sm, d) == z);
    vstd::arithmetic::div_mod::lemma_fundamental_div_mod(1461 * n, 4);
    vstd::arithmetic::div_mod::lemma_mod_division_less_than_divisor(1461 * n, 4);
    vstd::arithmetic::div_mod::lemma_fundamental_div_mod(sy, 100);
    vstd::arithmetic::div_mod::lemma_mod_division_less_than_divisor(sy, 100);
    vstd::arithmetic::div_mod::lemma_fundamental_div_mod(a, 4);
    vstd::arithmetic::div_mod::lemma_mod_division_less_than_divisor(a, 4);
    lemma_month_code(sm);
    assert(sy >= 1582);
    assert(a >= 15) by {
        assert(sy == 100 * a + ry);
    }
    assert(r4 == ry % 4) by {
        vstd::arithmetic::div_mod::lemma_mod_multiples_vanish(365 * n, n, 4);
        assert(1461 * n == 4 * (365 * n) + n) by (nonlinear_arith);
        vstd::arithmetic::div_mod::lemma_mod_multiples_vanish(25 * a + 1179, ry, 4);
        assert(n == 4 * (25 * a + 1179) + ry) by {
            assert(sy == 100 * a + ry);
        }
    }
    vstd::arithmetic::div_mod::lemma_fundamental_div_mod(ry, 4);
    vstd::arithmetic::div_mod::lemma_mod_division_less_than_divisor(ry, 4);
    // 4z expressed linearly over a, ry, g, d and the two residues
    assert(4 * z == 146097 * a + 1461 * ry + 6883988 + 4 * g + 4 * d - r4 - ra) by {
        assert(4 * f == 1461 * n - r4);
        assert(4 * (a / 4) == a - ra);
        assert(1461 * n == 146100 * a + 1461 * ry + 6890076) by (nonlinear_arith)
            requires
                n == 100 * a + ry + 4716,
        ;
    }
    // the day count reaches the cutover
    assert(4 * z >= 4 * 2299161) by {
        if a == 15 && ry == 82 {
            assert(sm >= 10);
            if sm == 10 {
                assert(d >= 15);
            }
            assert(ry % 4 == 2) by {
                vstd::arithmetic::div_mod::lemma_fundamental_div_mod_converse(82, 4, 20, 2);
            }
            assert(ra <= 3);
        } else if a == 15 {
            assert(ry >= 83);
        }
    }
    // the alpha quotient recovers the century index
    let alpha = (4 * z - 7468865) / 146097;
    let rem2 = 1461 * ry + 4 * g + 4 * d - r4 - ra - 489;
    assert(4 * z - 7468865 == (a - 4) * 146097 + rem2);
    assert(rem2 >= 0) by {
        if ry == 0 {
            assert(r4 == 0) by {
                vstd::arithmetic::div_mod::lemma_fundamental_div_mod_converse(0, 4, 0, 0);
            }
        }
    }
    assert(rem2 < 146097) by {
        if ry == 99 {
            assert(r4 == 3) by {
                vstd::arithmetic::div_mod::lemma_fundamental_div_mod_converse(99, 4, 24, 3);
            }
            if sm == 14 && d == 29 {
                // a Gregorian February 29th of a year ending a century
                // exists only when the 400-year rule grants the leap day
                let y = sy + 1;
                assert(y == 100 * (a + 1));
                assert(y > 1582);
                assert(y % 100 == 0) by {
                    vstd::arithmetic::div_mod::lemma_mod_multiples_vanish(a + 1, 0, 100);
                }
                assert(y % 400 == 0);
                assert(ra == 3) by {
                    let qa = (a + 1) / 4;
                    vstd::arithmetic::div_mod::lemma_fundamental_div_mod(a + 1, 4);
                    vstd::arithmetic::div_mod::lemma_mod_division_less_than_divisor(a + 1, 4);
                    let rr = (a + 1) % 4;
                    assert(y == 400 * qa + 100 * rr) by (nonlinear_arith)
                        requires
                            y == 100 * (a + 1),
                            a + 1 == 4 * qa + rr,
                    ;
                    assert(y % 400 == 100 * rr) by {
                        vstd::arithmetic::div_mod::lemma_fundamental_div_mod_converse(
                            y,
                            400,
                            qa,
                            100 * rr,
                        );
                    }
                    assert(rr == 0);
                    assert(a == 4 * qa - 1 + rr + ra - ra);
                    vstd::arithmetic::div_mod::lemma_fundamental_div_mod_converse(
                        a,
                        4,
                        qa - 1,
                        3,
                    );
                }
            }
        }
    }
    vstd::arithmetic::div_mod::lemma_fundamental_div_mod_converse(
        4 * z - 7468865,
        146097,
        a - 4,
        rem2,
    );
    assert(alpha == a - 4);
    assert((a - 4) / 4 == a / 4 - 1) by {
        vstd::arithmetic::div_mod::lemma_fundamental_div_mod_converse(a - 4, 4, a / 4 - 1, ra);
    }
    assert(z + 1 + alpha - alpha / 4 == z - b);
}

/// The Julian Day formula over shifted year and month.
pub open spec fn spec_jdn_shifted(sy: int, sm: int, d: int) -> int {
    let b = if spec_is_gregorian(sy, sm, d) {
        spec_gregorian_correction(sy)
    } else {
        0
    };
    (1461 * (sy + 4716)) / 4 + (306 * (sm + 1)) / 10 + d + b - 1524
}

/// Round trip of the calendar conversion: converting a valid date of
/// the supported range to its Julian Day Number and back returns the
/// same date, across both calendars and the adoption gap between them.
pub proof fn lemma_julian_day_round_trip(y: int, m: int, d: int)
    requires
        spec_valid_date(y, m, d),
    ensures
        spec_date_from_jdn(spec_jdn(y, m, d)) == (y, m, d),
{
    let sy = spec_shift_year(y, m);
    let sm = spec_shift_month(m);
    let n = sy + 4716;
    let z = spec_jdn(y, m, d);
    assert(z == spec_jdn_shifted(sy, sm, d));
    // day caps of the shifted month, and the leap congruence for Feb 29
    assert(sm == 4 || sm == 6 || sm == 9 || sm == 11 ==> d <= 30);
    assert(sm == 14 ==> d <= 29);
    if sm == 14 && d == 29 {
        assert(m == 2 && spec_is_leap(y));
        assert(y % 4 == 0);
        assert(n % 4 == 3) by {
            let q = y / 4;
            vstd::arithmetic::div_mod::lemma_fundamental_div_mod(y, 4);
            assert(n == 4 * (q + 1178) + 3) by (nonlinear_arith)
                requires
                    n == y + 4715,
                    y == 4 * q,
            ;
            vstd::arithmetic::div_mod::lemma_fundamental_div_mod_converse(n, 4, q + 1178, 3);
        }
    }
    if spec_is_gregorian(sy, sm, d) {
        if sm == 14 && d == 29 {
            assert(spec_is_leap(sy + 1));
        }
        lemma_gregorian_inverse_a(sy, sm, d);
        lemma_inverse_of_julian_sum(sy, sm, d);
    } else {
        assert(sy == 1582 && sm == 10 ==> d <= 4);
        lemma_julian_below_cutover(sy, sm, d);
        assert(spec_inverse_a(z) == z);
        lemma_inverse_of_julian_sum(sy, sm, d);
    }
}

/// Names what chrono's `NaiveDate::parse_from_str` returns for a text
/// and format: the parse depends on those two arguments alone.
pub uninterp spec fn spec_chrono_date(s: Seq<u8>, fmt: Seq<char>) -> Option<(i64, i64, i64)>;

/// Relies on chrono::NaiveDate::parse_from_str: parses `s` against the
/// strftime-style format `fmt` into (year, month, day); a parse error
/// becomes `None`.  chrono only constructs valid dates, with months
/// numbered 1 to 12 and days 1 to 31.
#[verifier::external_body]
fn chrono_parse_date(s: &str, fmt: &str) -> (r: Option<(i64, i64, i64)>)
    ensures
        r == spec_chrono_date(s.spec_bytes(), fmt@),
        r matches Some(t) ==> 1 <= t.1 <= 12 && 1 <= t.2 <= 31,
{
    match chrono::NaiveDate::parse_from_str(s, fmt) {
        Ok(d) => Some((
            chrono::Datelike::year(&d) as i64,
            chrono::Datelike::month(&d) as i64,
            chrono::Datelike::day(&d) as i64,
        )),
        Err(_) => None,
    }
}

/// Names what chrono's `NaiveDateTime::parse_from_str` returns for a
/// text and format: the parse depends on those two arguments alone.
pub uninterp spec fn spec_chrono_datetime(s: Seq<u8>, fmt: Seq<char>) -> Option<
    (i64, i64, i64, i64, i64, i64),
>;

/// Relies on chrono::NaiveDateTime::parse_from_str: parses `s` against
/// `fmt` into (year, month, day, hour, minute, second); a parse error
/// becomes `None`.  chrono only constructs valid instants: months 1 to
/// 12, days 1 to 31, hours 0 to 23, minutes and seconds 0 to 59.
#[verifier::external_body]
fn chrono_parse_datetime(s: &str, fmt: &str) -> (r: Option<(i64, i64, i64, i64, i64, i64)>)
    ensures
        r == spec_chrono_datetime(s.spec_bytes(), fmt@),
        r matches Some(t) ==> 1 <= t.1 <= 12 && 1 <= t.2 <= 31 && 0 <= t.3 <= 23 && 0 <= t.4 <= 59
            && 0 <= t.5 <= 59,
{
    match chrono::NaiveDateTime::parse_from_str(s, fmt) {
        Ok(d) => Some((
            chrono::Datelike::year(&d) as i64,
            chrono::Datelike::month(&d) as i64,
            chrono::Datelike::day(&d) as i64,
            chrono::Timelike::hour(&d) as i64,
            chrono::Timelike::minute(&d) as i64,
            chrono::Timelike::second(&d) as i64,
        )),
        Err(_) => None,
    }
}

/// Names what chrono's `NaiveTime::parse_from_str` returns for a text
/// and format: the parse depends on those two arguments alone.
pub uninterp spec fn spec_chrono_time(s: Seq<u8>, fmt: Seq<char>) -> Option<(i64, i64, i64)>;

/// Relies on chrono::NaiveTime::parse_from_str: parses `s` against
/// `fmt` into (hour, minute, second); a parse error becomes `None`.
/// chrono only constructs valid clock readings: hours 0 to 23,
/// minutes 0 to 59, seconds 0 to 59 outside leap seconds.
#[verifier::external_body]
pub(crate) fn chrono_parse_time(s: &str, fmt: &str) -> (r: Option<(i64, i64, i64)>)
    ensures
        r == spec_chrono_time(s.spec_bytes(), fmt@),
        r matches Some(t) ==> 0 <= t.0 <= 23 && 0 <= t.1 <= 59 && 0 <= t.2 <= 59,
{
    match chrono::NaiveTime::parse_from_str(s, fmt) {
        Ok(t) => Some((
            chrono::Timelike::hour(&t) as i64,
            chrono::Timelike::minute(&t) as i64,
            chrono::Timelike::second(&t) as i64,
        )),
        Err(_) => None,
    }
}

/// The date obtained from a text by trying the four accepted formats
/// in their fixed order.
pub open spec fn spec_parse_date(s: Seq<u8>) -> Option<(i64, i64, i64)> {
    if spec_chrono_date(s, "%Y-%m-%d"@) is Some {
        spec_chrono_date(s, "%Y-%m-%d"@)
    } else if spec_chrono_date(s, "%d/%m/%Y"@) is Some {
        spec_chrono_date(s, "%d/%m/%Y"@)
    } else if spec_chrono_date(s, "%d-%m-%Y"@) is Some {
        spec_chrono_date(s, "%d-%m-%Y"@)
    } else if spec_chrono_date(s, "%Y%m%d"@) is Some {
        spec_chrono_date(s, "%Y%m%d"@)
    } else {
        None
    }
}

/// Parses a calendar date from text, trying `%Y-%m-%d`, `%d/%m/%Y`,
/// `%d-%m-%Y` and `%Y%m%d` in that order; text none of them accepts
/// yields `None`, which callers replace by their "now" default.
pub fn parse_date(input: &str) -> (r: Option<(i64, i64, i64)>)
    ensures
        r == spec_parse_date(input.spec_bytes()),
        r matches Some(t) ==> 1 <= t.1 <= 12 && 1 <= t.2 <= 31,
{
    if let Some(t) = chrono_parse_date(input, "%Y-%m-%d") {
        return Some(t);
    }
    if let Some(t) = chrono_parse_date(input, "%d/%m/%Y") {
        return Some(t);
    }
    if let Some(t) = chrono_parse_date(input, "%d-%m-%Y") {
        return Some(t);
    }
    if let Some(t) = chrono_parse_date(input, "%Y%m%d") {
        return Some(t);
    }
    None
}

/// What a free-form timestamp text was recognized as.
#[derive(Debug, Clone, Copy, PartialEq, Eq, Structural)]
pub enum ParsedStamp {
    /// Date and clock both present.
    Full(i64, i64, i64, i64, i64, i64),
    /// Only a calendar date; the clock defaults to midnight.
    DateOnly(i64, i64, i64),
    /// Only a clock reading; the date is the caller's "today".
    TimeOnly(i64, i64, i64),
    /// Nothing recognized; the caller substitutes its "now" default.
    Unrecognized,
}

/// The classification of a timestamp text: full date-and-time formats
/// first (each date format with seconds, then without), then the date
/// formats alone, then the clock formats alone.
pub open spec fn spec_parse_stamp(s: Seq<u8>) -> ParsedStamp {
    if spec_first_datetime(s) is Some {
        let t = spec_first_datetime(s)->0;
        ParsedStamp::Full(t.0, t.1, t.2, t.3, t.4, t.5)
    } else if spec_parse_date(s) is Some {
        let t = spec_parse_date(s)->0;
        ParsedStamp::DateOnly(t.0, t.1, t.2)
    } else if spec_first_time(s) is Some {
        let t = spec_first_time(s)->0;
        ParsedStamp::TimeOnly(t.0, t.1, t.2)
    } else {
        ParsedStamp::Unrecognized
    }
}

/// The first of the eight combined date-and-time formats that parses.
pub open spec fn spec_first_datetime(s: Seq<u8>) -> Option<(i64, i64, i64, i64, i64, i64)> {
    if spec_chrono_datetime(s, "%Y-%m-%d %H:%M:%S"@) is Some {
        spec_chrono_datetime(s, "%Y-%m-%d %H:%M:%S"@)
    } else if spec_chrono_datetime(s, "%Y-%m-%d %H:%M"@) is Some {
        spec_chrono_datetime(s, "%Y-%m-%d %H:%M"@)
    } else if spec_chrono_datetime(s, "%d/%m/%Y %H:%M:%S"@) is Some {
        spec_chrono_datetime(s, "%d/%m/%Y %H:%M:%S"@)
    } else if spec_chrono_datetime(s, "%d/%m/%Y %H:%M"@) is Some {
        spec_chrono_datetime(s, "%d/%m/%Y %H:%M"@)
    } else if spec_chrono_datetime(s, "%d-%m-%Y %H:%M:%S"@) is Some {
        spec_chrono_datetime(s, "%d-%m-%Y %H:%M:%S"@)
    } else if spec_chrono_datetime(s, "%d-%m-%Y %H:%M"@) is Some {
        spec_chrono_datetime(s, "%d-%m-%Y %H:%M"@)
    } else if spec_chrono_datetime(s, "%Y%m%d %H:%M:%S"@) is Some {
        spec_chrono_datetime(s, "%Y%m%d %H:%M:%S"@)
    } else if spec_chrono_datetime(s, "%Y%m%d %H:%M"@) is Some {
        spec_chrono_datetime(s, "%Y%m%d %H:%M"@)
    } else {
        None
    }
}

/// The first of the two clock formats that parses.
pub open spec fn spec_first_time(s: Seq<u8>) -> Option<(i64, i64, i64)> {
    if spec_chrono_time(s, "%H:%M:%S"@) is Some {
        spec_chrono_time(s, "%H:%M:%S"@)
    } else if spec_chrono_time(s, "%H:%M"@) is Some {
        spec_chrono_time(s, "%H:%M"@)
    } else {
        None
    }
}

/// Classifies a free-form timestamp: tries the combined date-and-time
/// formats, then a bare date, then a bare clock reading; empty or
/// unrecognized text is reported as such for the caller to replace by
/// "now".
pub fn parse_stamp(timestamp_str: &str) -> (r: ParsedStamp)
    ensures
        r == spec_parse_stamp(timestamp_str.spec_bytes()),
        r matches ParsedStamp::Full(y, m, d, h, mi, s) ==> 1 <= m <= 12 && 1 <= d <= 31 && 0 <= h
            <= 23 && 0 <= mi <= 59 && 0 <= s <= 59,
        r matches ParsedStamp::DateOnly(y, m, d) ==> 1 <= m <= 12 && 1 <= d <= 31,
        r matches ParsedStamp::TimeOnly(h, mi, s) ==> 0 <= h <= 23 && 0 <= mi <= 59 && 0 <= s
            <= 59,
{
    if let Some(t) = first_datetime(timestamp_str) {
        return ParsedStamp::Full(t.0, t.1, t.2, t.3, t.4, t.5);
    }
    if let Some(t) = parse_date(timestamp_str) {
        return ParsedStamp::DateOnly(t.0, t.1, t.2);
    }
    if let Some(t) = first_time(timestamp_str) {
        return ParsedStamp::TimeOnly(t.0, t.1, t.2);
    }
    ParsedStamp::Unrecognized
}

fn first_datetime(s: &str) -> (r: Option<(i64, i64, i64, i64, i64, i64)>)
    ensures
        r == spec_first_datetime(s.spec_bytes()),
        r matches Some(t) ==> 1 <= t.1 <= 12 && 1 <= t.2 <= 31 && 0 <= t.3 <= 23 && 0 <= t.4 <= 59
            && 0 <= t.5 <= 59,
{
    if let Some(t) = chrono_parse_datetime(s, "%Y-%m-%d %H:%M:%S") {
        return Some(t);
    }
    if let Some(t) = chrono_parse_datetime(s, "%Y-%m-%d %H:%M") {
        return Some(t);
    }
    if let Some(t) = chrono_parse_datetime(s, "%d/%m/%Y %H:%M:%S") {
        return Some(t);
    }
    if let Some(t) = chrono_parse_datetime(s, "%d/%m/%Y %H:%M") {
        return Some(t);
    }
    if let Some(t) = chrono_parse_datetime(s, "%d-%m-%Y %H:%M:%S") {
        return Some(t);
    }
    if let Some(t) = chrono_parse_datetime(s, "%d-%m-%Y %H:%M") {
        return Some(t);
    }
    if let Some(t) = chrono_parse_datetime(s, "%Y%m%d %H:%M:%S") {
        return Some(t);
    }
    if let Some(t) = chrono_parse_datetime(s, "%Y%m%d %H:%M") {
        return Some(t);
    }
    None
}

fn first_time(s: &str) -> (r: Option<(i64, i64, i64)>)
    ensures
        r == spec_first_time(s.spec_bytes()),
        r matches Some(t) ==> 0 <= t.0 <= 23 && 0 <= t.1 <= 59 && 0 <= t.2 <= 59,
{
    if let Some(t) = chrono_parse_time(s, "%H:%M:%S") {
        return Some(t);
    }
    if let Some(t) = chrono_parse_time(s, "%H:%M") {
        return Some(t);
    }
    None
}

/// Seconds elapsed since midnight for a clock reading.
pub open spec fn spec_day_seconds(h: int, mi: int, s: int) -> int {
    h * 3600 + mi * 60 + s
}

/// Seconds since midnight of a clock reading.
pub fn day_seconds_from_hms(h: i64, mi: i64, s: i64) -> (r: i64)
    requires
        0 <= h <= 23,
        0 <= mi <= 59,
        0 <= s <= 59,
    ensures
        r == spec_day_seconds(h as int, mi as int, s as int),
        0 <= r < 86400,
{
    h * 3600 + mi * 60 + s
}

/// Clock reading of a count of seconds since midnight.
pub fn hms_from_day_seconds(secs: i64) -> (r: (i64, i64, i64))
    requires
        0 <= secs < 86400,
    ensures
        r.0 == secs as int / 3600,
        r.1 == (secs as int % 3600) / 60,
        r.2 == secs as int % 60,
        0 <= r.0 <= 23,
        0 <= r.1 <= 59,
        0 <= r.2 <= 59,
        spec_day_seconds(r.0 as int, r.1 as int, r.2 as int) == secs as int,
{
    let u: u64 = secs as u64;
    let h: u64 = u / 3600;
    let mi: u64 = (u % 3600) / 60;
    let s: u64 = u % 60;
    proof {
        lemma_hms_reassemble(secs as int);
    }
    ((h as i64), (mi as i64), (s as i64))
}

/// Splitting seconds of day into hours, minutes and seconds loses
/// nothing.
proof fn lemma_hms_reassemble(u: int)
    requires
        0 <= u < 86400,
    ensures
        (u / 3600) * 3600 + ((u % 3600) / 60) * 60 + u % 60 == u,
        u / 3600 <= 23,
        (u % 3600) / 60 <= 59,
        u % 60 <= 59,
{
    vstd::arithmetic::div_mod::lemma_fundamental_div_mod(u, 3600);
    vstd::arithmetic::div_mod::lemma_mod_division_less_than_divisor(u, 3600);
    vstd::arithmetic::div_mod::lemma_fundamental_div_mod(u % 3600, 60);
    vstd::arithmetic::div_mod::lemma_mod_division_less_than_divisor(u % 3600, 60);
    assert(u % 60 == (u % 3600) % 60) by {
        vstd::arithmetic::div_mod::lemma_mod_mod(u, 60, 60);
        assert(3600 == 60 * 60);
    }
    assert(u / 3600 <= 23) by (nonlinear_arith)
        requires
            0 <= u < 86400,
    ;
    assert((u % 3600) / 60 <= 59) by (nonlinear_arith)
        requires
            0 <= u % 3600 < 3600,
    ;
}

/// A continuous Julian Day instant held exactly, as whole seconds on
/// the Julian Day axis: the Julian Day times 86400.  Day zero starts
/// at noon, so a civil date's midnight lies 43200 seconds before its
/// noon's Julian Day Number.
pub open spec fn spec_jd_seconds(y: int, m: int, d: int, h: int, mi: int, s: int) -> int {
    spec_jdn(y, m, d) * 86400 + spec_day_seconds(h, mi, s) - 43200
}

/// Calendar fields of a Julian Day instant in whole seconds.
pub open spec fn spec_datetime_from_jd_seconds(t: int) -> (int, int, int, int, int, int) {
    let u = t + 43200;
    let z = u / 86400;
    let secs = u % 86400;
    let ymd = spec_date_from_jdn(z);
    (ymd.0, ymd.1, ymd.2, secs / 3600, (secs % 3600) / 60, secs % 60)
}

/// Julian Day instant, in whole seconds, of a calendar instant.
pub fn jd_seconds_from_datetime(year: i64, month: i64, day: i64, hour: i64, minute: i64, second: i64) -> (t: i64)
    requires
        -4712 <= year <= 9999,
        1 <= month <= 12,
        1 <= day <= 31,
        0 <= hour <= 23,
        0 <= minute <= 59,
        0 <= second <= 59,
    ensures
        t as int == spec_jd_seconds(
            year as int,
            month as int,
            day as int,
            hour as int,
            minute as int,
            second as int,
        ),
        -43200 <= t <= 475_200_000_000,
{
    let jdn = jdn_from_date(year, month, day);
    let secs = day_seconds_from_hms(hour, minute, second);
    jdn * 86400 + secs - 43200
}

/// Calendar instant of a Julian Day instant in whole seconds, as
/// (year, month, day, hour, minute, second).
pub fn datetime_from_jd_seconds(t: i64) -> (r: (i64, i64, i64, i64, i64, i64))
    requires
        -43200 <= t <= 863_999_956_800,
    ensures
        (r.0 as int, r.1 as int, r.2 as int, r.3 as int, r.4 as int, r.5 as int)
            == spec_datetime_from_jd_seconds(t as int),
{
    let u: u64 = (t + 43200) as u64;
    let z: i64 = (u / 86400) as i64;
    let secs: i64 = (u % 86400) as i64;
    proof {
        vstd::arithmetic::div_mod::lemma_mod_division_less_than_divisor(u as int, 86400);
        vstd::arithmetic::div_mod::lemma_fundamental_div_mod(u as int, 86400);
    }
    let (y, m, d) = date_from_jdn(z);
    let (h, mi, s) = hms_from_day_seconds(secs);
    (y, m, d, h, mi, s)
}

/// Round trip of the full conversion, clock included: a valid calendar
/// instant of the supported range, taken to its Julian Day instant in
/// whole seconds and back, is returned unchanged.  On this exact
/// representation the round trip loses nothing, a fortiori staying
/// within one second.
pub proof fn lemma_instant_round_trip(y: int, m: int, d: int, h: int, mi: int, s: int)
    requires
        spec_valid_date(y, m, d),
        0 <= h <= 23,
        0 <= mi <= 59,
        0 <= s <= 59,
    ensures
        spec_datetime_from_jd_seconds(spec_jd_seconds(y, m, d, h, mi, s)) == (y, m, d, h, mi, s),
{
    let jdn = spec_jdn(y, m, d);
    let secs = spec_day_seconds(h, mi, s);
    let t = spec_jd_seconds(y, m, d, h, mi, s);
    vstd::arithmetic::div_mod::lemma_fundamental_div_mod_converse(t + 43200, 86400, jdn, secs);
    lemma_julian_day_round_trip(y, m, d);
    vstd::arithmetic::div_mod::lemma_fundamental_div_mod_converse(secs, 3600, h, mi * 60 + s);
    vstd::arithmetic::div_mod::lemma_fundamental_div_mod_converse(mi * 60 + s, 60, mi, s);
}

/// The text `DD-MM HH:MM` of a calendar instant, each field padded to
/// two digits.
pub open spec fn spec_format_hm(m: int, d: int, h: int, mi: int) -> Seq<char> {
    spec_pad2(d) + seq!['-'] + spec_pad2(m) + seq![' '] + spec_pad2(h) + seq![':'] + spec_pad2(mi)
}

/// The clock text `HH:MM`, both fields padded to two digits.
pub open spec fn spec_format_hhmm(h: int, mi: int) -> Seq<char> {
    spec_pad2(h) + seq![':'] + spec_pad2(mi)
}

/// Formats a clock reading as `HH:MM`.
pub fn format_hhmm(h: i64, mi: i64) -> (r: String)
    ensures
        r@ == spec_format_hhmm(h as int, mi as int),
{
    let mut out = String::new();
    push_pad2(&mut out, h);
    string_push(&mut out, ':');
    push_pad2(&mut out, mi);
    assert(out@ =~= spec_format_hhmm(h as int, mi as int));
    out
}

/// The date text `YYYY-MM-DD`: the year padded to four digits, month
/// and day to two.
pub open spec fn spec_format_yyyymmdd(y: int, m: int, d: int) -> Seq<char> {
    spec_pad4(y) + seq!['-'] + spec_pad2(m) + seq!['-'] + spec_pad2(d)
}

/// Formats a date as `YYYY-MM-DD`.
pub fn format_yyyymmdd(y: i64, m: i64, d: i64) -> (r: String)
    ensures
        r@ == spec_format_yyyymmdd(y as int, m as int, d as int),
{
    let mut out = String::new();
    push_pad4(&mut out, y);
    string_push(&mut out, '-');
    push_pad2(&mut out, m);
    string_push(&mut out, '-');
    push_pad2(&mut out, d);
    assert(out@ =~= spec_format_yyyymmdd(y as int, m as int, d as int));
    out
}

/// Formats an instant as `DD-MM HH:MM`; the year and seconds take no
/// part in this short form.
pub fn format_hm(y: i64, m: i64, d: i64, h: i64, min: i64, s: i64) -> (r: String)
    ensures
        r@ == spec_format_hm(m as int, d as int, h as int, min as int),
{
    let mut out = String::new();
    push_pad2(&mut out, d);
    string_push(&mut out, '-');
    push_pad2(&mut out, m);
    string_push(&mut out, ' ');
    push_pad2(&mut out, h);
    string_push(&mut out, ':');
    push_pad2(&mut out, min);
    assert(out@ =~= spec_format_hm(m as int, d as int, h as int, min as int));
    out
}

} // verus!
