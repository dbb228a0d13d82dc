//! Fixed-point scalars.
//!
//! Every real quantity of the renderer (angles, coordinates, normals,
//! reciprocal depths) is carried as an `i64` holding the real value times
//! `SCALE`.  All arithmetic on these scalars truncates toward zero, the
//! rounding of machine division, so each operation has an exact
//! specification over `tdiv`.

use vstd::arithmetic::div_mod::lemma_fundamental_div_mod;
use vstd::arithmetic::div_mod::lemma_mod_bound;
use vstd::math::abs;
use vstd::prelude::*;

verus! {

/// One unit of real value equals `SCALE` fixed-point ticks.
pub const SCALE: i64 = 100_000;

/// Half of `SCALE`, the tick count of the real value one half.
pub const HALF_SCALE: i64 = 50_000;

/// The angle pi in ticks, rounded to the nearest tick so that the half and
/// double angles below are exact multiples of it.
pub const PI_FX: i64 = 314_160;

/// The angle pi / 2 in ticks.
pub const HALF_PI_FX: i64 = 157_080;

/// The angle 2 * pi in ticks.
pub const TWO_PI_FX: i64 = 628_320;

/// Division truncating toward zero: the meaning of `/` on machine integers,
/// as opposed to the euclidean `/` of ghost arithmetic.
pub open spec fn tdiv(a: int, b: int) -> int {
    if a >= 0 {
        a / b
    } else {
        -((-a) / b)
    }
}

/// The product of two fixed-point scalars, rescaled to ticks.
pub open spec fn mul_fx_spec(a: int, b: int) -> int {
    tdiv(a * b, SCALE as int)
}

/// Truncating division shrinks magnitudes: a numerator within `m * b` gives
/// a quotient within `m`.
pub proof fn lemma_tdiv_bound(a: int, b: int, m: int)
    requires
        1 <= b,
        -m * b <= a <= m * b,
    ensures
        -m <= tdiv(a, b) <= m,
{
    if a >= 0 {
        lemma_fundamental_div_mod(a, b);
        lemma_mod_bound(a, b);
        assert(b * (a / b) <= a);
        assert(a / b <= m) by (nonlinear_arith)
            requires
                1 <= b,
                a <= m * b,
                b * (a / b) <= a,
                0 <= a / b || a / b < 0,
        {
        }
        assert(a / b >= 0) by {
            lemma_fundamental_div_mod(a, b);
            lemma_mod_bound(a, b);
            assert(b * (a / b) == a - a % b);
            assert(a - a % b > -b);
            assert(a / b >= 0) by (nonlinear_arith)
                requires
                    1 <= b,
                    b * (a / b) > -b,
            {
            }
        }
        assert(0 <= m);
    } else {
        let n = -a;
        assert((-m) * b == -(m * b)) by (nonlinear_arith);
        lemma_fundamental_div_mod(n, b);
        lemma_mod_bound(n, b);
        assert(b * (n / b) <= n);
        assert(n / b <= m) by (nonlinear_arith)
            requires
                1 <= b,
                n <= m * b,
                b * (n / b) <= n,
        {
        }
        assert(n / b >= 0) by {
            assert(b * (n / b) == n - n % b);
            assert(n - n % b > -b);
            assert(n / b >= 0) by (nonlinear_arith)
                requires
                    1 <= b,
                    b * (n / b) > -b,
            {
            }
        }
    }
}

/// Bounds on two factors bound their product.
pub proof fn lemma_mul_bound(a: int, b: int, ma: int, mb: int)
    requires
        -ma <= a <= ma,
        -mb <= b <= mb,
    ensures
        -(ma * mb) <= a * b <= ma * mb,
{
    assert(-(ma * mb) <= a * b <= ma * mb) by (nonlinear_arith)
        requires
            -ma <= a <= ma,
            -mb <= b <= mb,
    {
    }
}

/// A product `a * s` with `|s| <= SCALE`, rescaled to ticks, stays within
/// the magnitude of `a`.
pub proof fn lemma_mul_fx_shrinks(a: int, s: int)
    requires
        -SCALE <= s <= SCALE,
    ensures
        -abs(a) <= mul_fx_spec(a, s) <= abs(a),
{
    let m = abs(a) as int;
    assert(-m * SCALE <= a * s <= m * SCALE) by (nonlinear_arith)
        requires
            -SCALE <= s <= SCALE,
            m == abs(a),
    {
    }
    lemma_tdiv_bound(a * s, SCALE as int, m);
}

/// The product of two fixed-point scalars, rescaled back to ticks.
pub fn mul_fx(a: i64, b: i64) -> (r: i64)
    requires
        -0x7fff_ffff_ffff_ffff <= a * b <= 0x7fff_ffff_ffff_ffff,
    ensures
        r == mul_fx_spec(a as int, b as int),
{
    (a * b) / SCALE
}

} // verus!
