//! Luminance mapping.
//!
//! A luminance value is the dot product of a unit surface normal with the
//! light direction, a fixed-point scalar in `[-SCALE, SCALE]`.  It is
//! mapped to an index into a twelve-step ramp of shading characters from
//! darkest (`.`) to brightest (`@`): the index is `(luma + 1) * 5.5`
//! truncated, then clamped into `[0, 11]`.

use crate::fx::tdiv;
use crate::fx::SCALE;
use vstd::prelude::*;

verus! {

/// The shading character at a ramp position, darkest to brightest.
pub open spec fn ramp_char_spec(i: int) -> u8 {
    if i <= 0 {
        46u8
    } else if i == 1 {
        44u8
    } else if i == 2 {
        45u8
    } else if i == 3 {
        126u8
    } else if i == 4 {
        58u8
    } else if i == 5 {
        59u8
    } else if i == 6 {
        61u8
    } else if i == 7 {
        33u8
    } else if i == 8 {
        42u8
    } else if i == 9 {
        35u8
    } else if i == 10 {
        36u8
    } else {
        64u8
    }
}

/// The ramp index of a luminance value: `(luma + 1) * 5.5` truncated, then
/// clamped into `[0, 11]`.
pub open spec fn luma_index_spec(luma: int) -> int {
    let raw = tdiv((luma + SCALE) * 11, 2 * SCALE);
    if raw < 0 {
        0
    } else if raw > 11 {
        11
    } else {
        raw
    }
}

/// Maps a luminance value to its ramp index.  For every luminance within
/// one unit the index lies in `[0, 11]`; the darkest input maps to 0 and
/// the brightest to 11.
pub fn luma_index(luma: i64) -> (r: usize)
    requires
        -SCALE <= luma <= SCALE,
    ensures
        r == luma_index_spec(luma as int),
        0 <= r <= 11,
        luma == -SCALE ==> r == 0,
        luma == SCALE ==> r == 11,
{
    let raw = ((luma + SCALE) * 11) / (2 * SCALE);
    proof {
        crate::fx::lemma_tdiv_bound((luma + SCALE) * 11 as int, 2 * SCALE as int, 11);
    }
    let clamped = if raw < 0 {
        0
    } else if raw > 11 {
        11
    } else {
        raw
    };
    clamped as usize
}

/// The shading character at a ramp position.
pub fn ramp_char(i: usize) -> (r: u8)
    requires
        i <= 11,
    ensures
        r == ramp_char_spec(i as int),
{
    if i == 0 {
        46u8
    } else if i == 1 {
        44u8
    } else if i == 2 {
        45u8
    } else if i == 3 {
        126u8
    } else if i == 4 {
        58u8
    } else if i == 5 {
        59u8
    } else if i == 6 {
        61u8
    } else if i == 7 {
        33u8
    } else if i == 8 {
        42u8
    } else if i == 9 {
        35u8
    } else if i == 10 {
        36u8
    } else {
        64u8
    }
}

} // verus!
