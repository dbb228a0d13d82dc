//! Fixed-point sine and cosine.
//!
//! Angles are fixed-point radians.  Sine is computed by reducing the angle
//! into `[0, 2*pi)`, halving that to `[0, pi]` with a sign flip, and
//! evaluating Bhaskara's rational approximation
//! `sin x ~ 16 x (pi - x) / (5 pi^2 - 4 x (pi - x))` in integer ticks.
//! Every result provably stays within one unit, i.e. within `SCALE` ticks.

use crate::fx::tdiv;
use crate::fx::HALF_PI_FX;
use crate::fx::PI_FX;
use crate::fx::SCALE;
use crate::fx::TWO_PI_FX;
use vstd::arithmetic::div_mod::lemma_div_is_ordered;
use vstd::arithmetic::div_mod::lemma_div_multiples_vanish;
use vstd::arithmetic::div_mod::lemma_div_pos_is_pos;
use vstd::prelude::*;

verus! {

/// The angle reduced into `[0, 2*pi)` by whole turns.
pub open spec fn reduce_spec(x: int) -> int
    decreases x,
    when 0 <= x
{
    if x < TWO_PI_FX {
        x
    } else {
        reduce_spec(x - TWO_PI_FX)
    }
}

/// Bhaskara's approximation of sine on `[0, pi]`, in ticks.
pub open spec fn bhask_spec(x: int) -> int {
    let t = x * (PI_FX - x);
    tdiv(16 * t * SCALE, 5 * (PI_FX * PI_FX) - 4 * t)
}

/// The fixed-point sine of a non-negative angle, in ticks.
pub open spec fn sin_spec(x: int) -> int {
    let y = reduce_spec(x);
    if y < PI_FX {
        bhask_spec(y)
    } else {
        -bhask_spec(y - PI_FX)
    }
}

/// The fixed-point cosine, a quarter turn ahead of sine.
pub open spec fn cos_spec(x: int) -> int {
    sin_spec(x + HALF_PI_FX)
}

/// Bhaskara's approximation on `[0, pi]`.  The numerator never exceeds the
/// denominator, so the result stays in `[0, SCALE]`.
fn bhask(z: i64) -> (r: i64)
    requires
        0 <= z <= PI_FX,
    ensures
        r == bhask_spec(z as int),
        0 <= r <= SCALE,
{
    proof {
        assert(0 <= z * (PI_FX - z) && 4 * (z * (PI_FX - z)) <= PI_FX * PI_FX)
            by (nonlinear_arith)
            requires
                0 <= z <= PI_FX,
        {
        }
    }
    let t = z * (PI_FX - z);
    let num = 16 * t;
    let den = 5 * (PI_FX * PI_FX) - 4 * t;
    proof {
        assert(num <= den);
        lemma_div_pos_is_pos(num * SCALE, den as int);
        assert(num * SCALE <= den * SCALE) by (nonlinear_arith)
            requires
                num <= den,
                SCALE > 0,
        {
        }
        lemma_div_is_ordered(num * SCALE, den * SCALE, den as int);
        lemma_div_multiples_vanish(SCALE as int, den as int);
        assert(den * SCALE == SCALE * den) by (nonlinear_arith);
        assert(num * SCALE / (den as int) <= SCALE);
    }
    (num * SCALE) / den
}

/// The fixed-point sine of a non-negative angle, in ticks.
pub fn sin_fx(x: i64) -> (r: i64)
    requires
        0 <= x,
    ensures
        r == sin_spec(x as int),
        -SCALE <= r <= SCALE,
{
    let mut y = x;
    while y >= TWO_PI_FX
        invariant
            0 <= y,
            reduce_spec(x as int) == reduce_spec(y as int),
        decreases y,
    {
        y = y - TWO_PI_FX;
    }
    if y < PI_FX {
        bhask(y)
    } else {
        let q = bhask(y - PI_FX);
        -q
    }
}

/// The fixed-point cosine of a non-negative angle, in ticks.
pub fn cos_fx(x: i64) -> (r: i64)
    requires
        0 <= x <= 0x7000_0000_0000_0000,
    ensures
        r == cos_spec(x as int),
        -SCALE <= r <= SCALE,
{
    sin_fx(x + HALF_PI_FX)
}

} // verus!
