//! Observer defaults and timezone parsing.
//!
//! Latitude and longitude are parsed from text in the floating-point
//! shell around this library; the `+HH:MM` timezone form, which is
//! exact in minutes, is parsed here.

use vstd::prelude::*;
use crate::datetime::chrono_parse_time;
use crate::datetime::spec_chrono_time;
use vstd::string::StringSliceAdditionalSpecFns;

verus! {

/// Default observatory name.
pub fn default_name() -> (r: Option<String>)
    ensures
        r matches Some(s) && s@ == "My observatory"@,
{
    Some("My observatory".to_owned())
}

/// Default site elevation in meters.
pub fn default_elevation() -> (r: i64)
    ensures
        r == 0,
{
    0
}

/// Minutes east of UTC read from an unsigned `HH:MM` text; text the
/// clock format rejects counts as zero.
pub open spec fn spec_hm_minutes(b: Seq<u8>) -> int {
    match spec_chrono_time(b, "%H:%M"@) {
        Some(t) => t.0 * 60 + t.1,
        None => 0,
    }
}

/// Minutes east of UTC read from a `HH:MM` text with an optional
/// leading minus sign; unparseable text counts as zero.
pub open spec fn spec_parse_hm(b: Seq<u8>) -> int {
    if b.len() > 0 && b[0] == 45 {
        -spec_hm_minutes(b.subrange(1, b.len() as int))
    } else {
        spec_hm_minutes(b)
    }
}

/// After a one-byte character, the next index is a character boundary.
proof fn lemma_boundary_after_ascii(b: Seq<u8>)
    requires
        vstd::utf8::valid_utf8(b),
        b.len() >= 1,
        b[0] < 0x80,
    ensures
        vstd::utf8::is_char_boundary(b, 1),
{
    reveal_with_fuel(vstd::utf8::valid_utf8, 2);
    reveal_with_fuel(vstd::utf8::is_char_boundary, 3);
    assert(vstd::utf8::length_of_first_scalar(b) == 1);
    if b.len() == 1 {
        vstd::utf8::is_char_boundary_start_end_of_seq(b);
    } else {
        assert(vstd::utf8::is_char_boundary(vstd::utf8::pop_first_scalar(b), 0));
    }
}

/// Parses a timezone offset of the form `HH:MM` or `-HH:MM` into
/// whole minutes east of UTC.  Text the clock format does not accept
/// yields 0, the documented silent default; decimal-hour offsets are
/// the caller's concern.
pub fn parse_hm(hm: &str) -> (r: i64)
    ensures
        r as int == spec_parse_hm(hm.spec_bytes()),
        -1439 <= r <= 1439,
{
    let bytes = hm.as_bytes();
    let negative: bool = bytes.len() > 0 && bytes[0] == 45;
    if negative {
        proof {
            vstd::utf8::encode_utf8_valid_utf8(hm@);
            lemma_boundary_after_ascii(hm.spec_bytes());
        }
        let parts = hm.split_at(1);
        let time_part = parts.1;
        proof {
            assert(time_part.spec_bytes() =~= hm.spec_bytes().subrange(
                1,
                hm.spec_bytes().len() as int,
            ));
        }
        match chrono_parse_time(time_part, "%H:%M") {
            Some(t) => -(t.0 * 60 + t.1),
            None => 0,
        }
    } else {
        match chrono_parse_time(hm, "%H:%M") {
            Some(t) => t.0 * 60 + t.1,
            None => 0,
        }
    }
}

} // verus!
