//! The parametric heart surface and its transformation.
//!
//! For parameters `(u, v)` the surface point and its (unnormalized) normal
//! are polynomials in sines and cosines of multiples of `u` and `v`.  Both
//! are rotated around the Y axis by angle `b`, then around the X axis by
//! angle `a`; the rotated normal is scaled to unit length by an integer
//! square root.  Everything is fixed-point with exact specifications.

use crate::fx::lemma_mul_fx_shrinks;
use crate::fx::mul_fx;
use crate::fx::mul_fx_spec;
use crate::fx::tdiv;
use crate::fx::PI_FX;
use crate::fx::SCALE;
use crate::fx::TWO_PI_FX;
use crate::trig::cos_fx;
use crate::trig::cos_spec;
use crate::trig::sin_fx;
use crate::trig::sin_spec;
use vstd::math::abs;
use vstd::prelude::*;

verus! {

/// A fixed-point vector in three dimensions.
#[derive(Clone, Copy, PartialEq, Eq, Structural, Debug)]
pub struct Vec3 {
    pub x: i64,
    pub y: i64,
    pub z: i64,
}

/// Whether `r` is the integer square root of `n`.
pub open spec fn is_isqrt(n: int, r: int) -> bool {
    0 <= r && r * r <= n && n < (r + 1) * (r + 1)
}

/// The integer square root: the largest `r` with `r * r <= n`.
pub open spec fn isqrt_spec(n: int) -> int {
    choose|r: int| is_isqrt(n, r)
}

/// Two integer square roots of the same number are equal.
pub proof fn lemma_isqrt_unique(n: int, r1: int, r2: int)
    requires
        is_isqrt(n, r1),
        is_isqrt(n, r2),
    ensures
        r1 == r2,
{
    assert(r1 == r2) by (nonlinear_arith)
        requires
            0 <= r1,
            0 <= r2,
            r1 * r1 <= n,
            n < (r1 + 1) * (r1 + 1),
            r2 * r2 <= n,
            n < (r2 + 1) * (r2 + 1),
    {
    }
}

/// Every non-negative number has an integer square root.
pub proof fn lemma_isqrt_exists(n: int)
    requires
        n >= 0,
    ensures
        is_isqrt(n, isqrt_spec(n)),
    decreases n,
{
    if n == 0 {
        assert(is_isqrt(0, 0));
    } else {
        lemma_isqrt_exists(n - 1);
        let r = isqrt_spec(n - 1);
        if (r + 1) * (r + 1) <= n {
            assert(is_isqrt(n, r + 1)) by (nonlinear_arith)
                requires
                    0 <= r,
                    n - 1 < (r + 1) * (r + 1) <= n,
            {
            }
            assert(exists|x: int| is_isqrt(n, x)) by {
                assert(is_isqrt(n, r + 1));
            }
        } else {
            assert(is_isqrt(n, r));
            assert(exists|x: int| is_isqrt(n, x)) by {
                assert(is_isqrt(n, r));
            }
        }
    }
}

/// Computes the integer square root by bisection.
pub fn isqrt(n: u64) -> (r: u64)
    requires
        n < 0x4000_0000_0000_0000,
    ensures
        is_isqrt(n as int, r as int),
        r == isqrt_spec(n as int),
        r <= 0x8000_0000,
{
    let mut lo: u64 = 0;
    let mut hi: u64 = 0x8000_0000;
    while lo + 1 < hi
        invariant
            lo < hi <= 0x8000_0000,
            lo * lo <= n,
            n < hi * hi,
        decreases hi - lo,
    {
        let mid = lo + (hi - lo) / 2;
        proof {
            assert(mid * mid < 0x4000_0000_0000_0000) by (nonlinear_arith)
                requires
                    mid < 0x8000_0000,
            {
            }
        }
        if mid * mid <= n {
            lo = mid;
        } else {
            hi = mid;
        }
    }
    proof {
        assert(is_isqrt(n as int, lo as int));
        assert(exists|r: int| is_isqrt(n as int, r)) by {
            assert(is_isqrt(n as int, lo as int));
        }
        lemma_isqrt_unique(n as int, lo as int, isqrt_spec(n as int));
    }
    lo
}

/// The surface point's first coordinate.
pub open spec fn heart_x_spec(u: int, v: int) -> int {
    mul_fx_spec(sin_spec(v), 15 * sin_spec(u) - 4 * sin_spec(3 * u))
}

/// The surface point's second coordinate.
pub open spec fn heart_y_spec(v: int) -> int {
    8 * cos_spec(v)
}

/// The surface point's third coordinate.
pub open spec fn heart_z_spec(u: int, v: int) -> int {
    mul_fx_spec(
        sin_spec(v),
        15 * cos_spec(u) - 5 * cos_spec(2 * u) - 2 * cos_spec(3 * u) - cos_spec(4 * u),
    )
}

/// The unnormalized normal's first coordinate.
pub open spec fn normal_x_spec(u: int, v: int) -> int {
    mul_fx_spec(sin_spec(v), 15 * cos_spec(u) - 4 * cos_spec(3 * u))
}

/// The unnormalized normal's second coordinate.
pub open spec fn normal_y_spec(v: int) -> int {
    mul_fx_spec(-8 * sin_spec(v), sin_spec(v))
}

/// The unnormalized normal's third coordinate.
pub open spec fn normal_z_spec(u: int, v: int) -> int {
    mul_fx_spec(
        cos_spec(v),
        15 * sin_spec(u) - 5 * sin_spec(2 * u) - 2 * sin_spec(3 * u) - sin_spec(4 * u),
    )
}

/// A rotation around the Y axis followed by one around the X axis, applied
/// to the vector `(x, y, z)`, with the four sines and cosines given.
pub open spec fn rotate_spec(x: int, y: int, z: int, sa: int, ca: int, sb: int, cb: int) -> (
    int,
    int,
    int,
) {
    let x1 = mul_fx_spec(x, cb) + mul_fx_spec(z, sb);
    let z1 = -mul_fx_spec(x, sb) + mul_fx_spec(z, cb);
    (x1, mul_fx_spec(y, ca) - mul_fx_spec(z1, sa), mul_fx_spec(y, sa) + mul_fx_spec(z1, ca))
}

/// The surface point at `(u, v)`, rotated by the angles `a` and `b`.
pub open spec fn rotated_pos_spec(a: int, b: int, u: int, v: int) -> (int, int, int) {
    rotate_spec(
        heart_x_spec(u, v),
        heart_y_spec(v),
        heart_z_spec(u, v),
        sin_spec(a),
        cos_spec(a),
        sin_spec(b),
        cos_spec(b),
    )
}

/// The surface normal at `(u, v)`, rotated by the angles `a` and `b`.
pub open spec fn rotated_normal_spec(a: int, b: int, u: int, v: int) -> (int, int, int) {
    rotate_spec(
        normal_x_spec(u, v),
        normal_y_spec(v),
        normal_z_spec(u, v),
        sin_spec(a),
        cos_spec(a),
        sin_spec(b),
        cos_spec(b),
    )
}

/// Applies the two rotations to a vector whose components are bounded by
/// 19, 8 and 23 units.  The results stay within 42 and 50 units.
fn rotate(p: Vec3, sa: i64, ca: i64, sb: i64, cb: i64) -> (r: Vec3)
    requires
        -SCALE <= sa <= SCALE,
        -SCALE <= ca <= SCALE,
        -SCALE <= sb <= SCALE,
        -SCALE <= cb <= SCALE,
        -19 * SCALE <= p.x <= 19 * SCALE,
        -8 * SCALE <= p.y <= 8 * SCALE,
        -23 * SCALE <= p.z <= 23 * SCALE,
    ensures
        (r.x as int, r.y as int, r.z as int) == rotate_spec(
            p.x as int,
            p.y as int,
            p.z as int,
            sa as int,
            ca as int,
            sb as int,
            cb as int,
        ),
        -42 * SCALE <= r.x <= 42 * SCALE,
        -50 * SCALE <= r.y <= 50 * SCALE,
        -50 * SCALE <= r.z <= 50 * SCALE,
{
    proof {
        lemma_mul_fx_shrinks(p.x as int, cb as int);
        lemma_mul_fx_shrinks(p.z as int, sb as int);
        lemma_mul_fx_shrinks(p.x as int, sb as int);
        lemma_mul_fx_shrinks(p.z as int, cb as int);
        crate::fx::lemma_mul_bound(p.x as int, cb as int, 19 * SCALE, SCALE as int);
        crate::fx::lemma_mul_bound(p.z as int, sb as int, 23 * SCALE, SCALE as int);
        crate::fx::lemma_mul_bound(p.x as int, sb as int, 19 * SCALE, SCALE as int);
        crate::fx::lemma_mul_bound(p.z as int, cb as int, 23 * SCALE, SCALE as int);
    }
    let x1 = mul_fx(p.x, cb) + mul_fx(p.z, sb);
    let z1 = -mul_fx(p.x, sb) + mul_fx(p.z, cb);
    proof {
        lemma_mul_fx_shrinks(p.y as int, ca as int);
        lemma_mul_fx_shrinks(z1 as int, sa as int);
        lemma_mul_fx_shrinks(p.y as int, sa as int);
        lemma_mul_fx_shrinks(z1 as int, ca as int);
        crate::fx::lemma_mul_bound(p.y as int, ca as int, 8 * SCALE, SCALE as int);
        crate::fx::lemma_mul_bound(z1 as int, sa as int, 42 * SCALE, SCALE as int);
        crate::fx::lemma_mul_bound(p.y as int, sa as int, 8 * SCALE, SCALE as int);
        crate::fx::lemma_mul_bound(z1 as int, ca as int, 42 * SCALE, SCALE as int);
    }
    let y2 = mul_fx(p.y, ca) - mul_fx(z1, sa);
    let z2 = mul_fx(p.y, sa) + mul_fx(z1, ca);
    Vec3 { x: x1, y: y2, z: z2 }
}

/// The rotated surface point and rotated normal at `(u, v)` for the
/// rotation angles `a` and `b`.
pub fn rotated_sample(a: i64, b: i64, u: i64, v: i64) -> (r: (Vec3, Vec3))
    requires
        0 <= a <= TWO_PI_FX,
        0 <= b <= TWO_PI_FX,
        0 <= u <= TWO_PI_FX,
        0 <= v <= PI_FX,
    ensures
        (r.0.x as int, r.0.y as int, r.0.z as int) == rotated_pos_spec(
            a as int,
            b as int,
            u as int,
            v as int,
        ),
        (r.1.x as int, r.1.y as int, r.1.z as int) == rotated_normal_spec(
            a as int,
            b as int,
            u as int,
            v as int,
        ),
        -42 * SCALE <= r.0.x <= 42 * SCALE,
        -50 * SCALE <= r.0.y <= 50 * SCALE,
        -50 * SCALE <= r.0.z <= 50 * SCALE,
        -42 * SCALE <= r.1.x <= 42 * SCALE,
        -50 * SCALE <= r.1.y <= 50 * SCALE,
        -50 * SCALE <= r.1.z <= 50 * SCALE,
{
    let su = sin_fx(u);
    let cu = cos_fx(u);
    let s2u = sin_fx(2 * u);
    let c2u = cos_fx(2 * u);
    let s3u = sin_fx(3 * u);
    let c3u = cos_fx(3 * u);
    let s4u = sin_fx(4 * u);
    let c4u = cos_fx(4 * u);
    let sv = sin_fx(v);
    let cv = cos_fx(v);
    let sa = sin_fx(a);
    let ca = cos_fx(a);
    let sb = sin_fx(b);
    let cb = cos_fx(b);

    proof {
        lemma_mul_fx_shrinks(15 * su - 4 * s3u, sv as int);
        lemma_mul_fx_shrinks(15 * cu - 5 * c2u - 2 * c3u - c4u, sv as int);
        lemma_mul_fx_shrinks(15 * cu - 4 * c3u, sv as int);
        lemma_mul_fx_shrinks(-8 * sv as int, sv as int);
        lemma_mul_fx_shrinks(15 * su - 5 * s2u - 2 * s3u - s4u, cv as int);
        crate::fx::lemma_mul_bound(sv as int, 15 * su - 4 * s3u, SCALE as int, 19 * SCALE);
        crate::fx::lemma_mul_bound(
            sv as int,
            15 * cu - 5 * c2u - 2 * c3u - c4u,
            SCALE as int,
            23 * SCALE,
        );
        crate::fx::lemma_mul_bound(sv as int, 15 * cu - 4 * c3u, SCALE as int, 19 * SCALE);
        crate::fx::lemma_mul_bound(-8 * sv as int, sv as int, 8 * SCALE, SCALE as int);
        crate::fx::lemma_mul_bound(
            cv as int,
            15 * su - 5 * s2u - 2 * s3u - s4u,
            SCALE as int,
            23 * SCALE,
        );
    }
    let x = mul_fx(sv, 15 * su - 4 * s3u);
    let y = 8 * cv;
    let z = mul_fx(sv, 15 * cu - 5 * c2u - 2 * c3u - c4u);

    let nx = mul_fx(sv, 15 * cu - 4 * c3u);
    let ny = mul_fx(-8 * sv, sv);
    let nz = mul_fx(cv, 15 * su - 5 * s2u - 2 * s3u - s4u);

    let pos = rotate(Vec3 { x, y, z }, sa, ca, sb, cb);
    let nrm = rotate(Vec3 { x: nx, y: ny, z: nz }, sa, ca, sb, cb);
    (pos, nrm)
}

/// A component of a vector is no longer than the integer square root of
/// the vector's squared length.
proof fn lemma_component_bound(c: int, q: int, l: int)
    requires
        c * c <= q,
        0 <= l,
        q < (l + 1) * (l + 1),
    ensures
        -l <= c <= l,
{
    assert(-l <= c <= l) by (nonlinear_arith)
        requires
            c * c <= q,
            0 <= l,
            q < (l + 1) * (l + 1),
    {
    }
}

/// The squared fixed-point length of a vector.
pub open spec fn sq_len_spec(n: (int, int, int)) -> int {
    n.0 * n.0 + n.1 * n.1 + n.2 * n.2
}

/// The vector scaled to unit length: each component is divided by the
/// integer square root of the squared length.
pub open spec fn normalized_spec(n: (int, int, int)) -> (int, int, int) {
    let l = isqrt_spec(sq_len_spec(n));
    (tdiv(n.0 * SCALE, l), tdiv(n.1 * SCALE, l), tdiv(n.2 * SCALE, l))
}

/// One normalized component `tdiv(c * SCALE, l)` squared, bounded from
/// both sides against the exact quotient `c^2 * SCALE^2 / l^2`.
proof fn lemma_normalized_component(c: int, l: int)
    requires
        l >= 1,
        -l <= c <= l,
    ensures
        ({
            let d = tdiv(c * SCALE, l);
            &&& l * l * (d * d) <= (c * c) * (SCALE * SCALE)
            &&& l * l * (d * d) >= (c * c) * (SCALE * SCALE) - 2 * SCALE * (l * l)
        }),
{
    let m = abs(c) as int * SCALE;
    let d = tdiv(c * SCALE, l);
    let k = m / l;
    if c >= 0 {
        assert(c * SCALE == m);
        assert(d == k);
    } else {
        assert(c * SCALE == -m);
        assert(d == -k);
    }
    assert(d * d == k * k) by (nonlinear_arith)
        requires
            d == k || d == -k,
    {
    }
    vstd::arithmetic::div_mod::lemma_fundamental_div_mod(m, l);
    vstd::arithmetic::div_mod::lemma_mod_bound(m, l);
    let r = m % l;
    assert(k >= 0) by (nonlinear_arith)
        requires
            m == l * k + r,
            0 <= r < l,
            m >= 0,
    {
    }
    assert(l * l * (k * k) <= m * m) by (nonlinear_arith)
        requires
            m == l * k + r,
            0 <= r,
            0 <= k,
            0 <= l,
    {
    }
    assert(l * l * (k * k) >= m * m - 2 * m * l) by (nonlinear_arith)
        requires
            m == l * k + r,
            0 <= r < l,
            0 <= m,
    {
    }
    assert(m * m == (c * c) * (SCALE * SCALE)) by (nonlinear_arith)
        requires
            m == abs(c) * SCALE,
            abs(c) == c || abs(c) == -c,
    {
    }
    assert(m <= SCALE * l) by (nonlinear_arith)
        requires
            m == abs(c) * SCALE,
            abs(c) <= l,
    {
    }
    assert(l * l * (d * d) <= (c * c) * (SCALE * SCALE) && l * l * (d * d) >= (c * c) * (SCALE
        * SCALE) - 2 * SCALE * (l * l)) by (nonlinear_arith)
        requires
            d * d == k * k,
            l * l * (k * k) <= m * m,
            l * l * (k * k) >= m * m - 2 * m * l,
            m * m == (c * c) * (SCALE * SCALE),
            m <= SCALE * l,
            m >= 0,
            l >= 1,
    {
    }
}

/// A normalized normal has unit length, up to the truncation tolerance of
/// fixed-point division: the squared length `s2` of the normalized vector
/// falls short of one square unit by at most 6 ticks, and exceeds it by at
/// most two square units divided by the length root `l` — so the larger
/// the unnormalized normal, the tighter the result is to unit length.
pub proof fn lemma_normalized_unit_length(n: (int, int, int))
    requires
        sq_len_spec(n) > 0,
    ensures
        ({
            let l = isqrt_spec(sq_len_spec(n));
            let nn = normalized_spec(n);
            let s2 = nn.0 * nn.0 + nn.1 * nn.1 + nn.2 * nn.2;
            &&& SCALE * SCALE - 6 * SCALE <= s2
            &&& l * s2 <= l * (SCALE * SCALE) + 2 * (SCALE * SCALE)
        }),
{
    let q = sq_len_spec(n);
    lemma_isqrt_exists(q);
    let l = isqrt_spec(q);
    assert(l >= 1) by (nonlinear_arith)
        requires
            is_isqrt(q, l),
            q >= 1,
    {
    }
    assert(n.0 * n.0 <= q && n.1 * n.1 <= q && n.2 * n.2 <= q) by (nonlinear_arith)
        requires
            q == n.0 * n.0 + n.1 * n.1 + n.2 * n.2,
    {
    }
    lemma_component_bound(n.0, q, l);
    lemma_component_bound(n.1, q, l);
    lemma_component_bound(n.2, q, l);
    lemma_normalized_component(n.0, l);
    lemma_normalized_component(n.1, l);
    lemma_normalized_component(n.2, l);
    let nn = normalized_spec(n);
    let s2 = nn.0 * nn.0 + nn.1 * nn.1 + nn.2 * nn.2;
    assert(l * l * s2 == l * l * (nn.0 * nn.0) + l * l * (nn.1 * nn.1) + l * l * (nn.2 * nn.2))
        by (nonlinear_arith)
        requires
            s2 == nn.0 * nn.0 + nn.1 * nn.1 + nn.2 * nn.2,
    {
    }
    assert((n.0 * n.0) * (SCALE * SCALE) + (n.1 * n.1) * (SCALE * SCALE) + (n.2 * n.2) * (SCALE
        * SCALE) == q * (SCALE * SCALE)) by (nonlinear_arith)
        requires
            q == n.0 * n.0 + n.1 * n.1 + n.2 * n.2,
    {
    }
    assert(l * l <= q && q <= l * l + 2 * l) by (nonlinear_arith)
        requires
            is_isqrt(q, l),
    {
    }
    assert(q * (SCALE * SCALE) <= (l * l) * (SCALE * SCALE) + 2 * l * (SCALE * SCALE))
        by (nonlinear_arith)
        requires
            q <= l * l + 2 * l,
    {
    }
    assert(l * s2 <= l * (SCALE * SCALE) + 2 * (SCALE * SCALE)) by (nonlinear_arith)
        requires
            l * l * s2 <= (l * l) * (SCALE * SCALE) + 2 * l * (SCALE * SCALE),
            l >= 1,
    {
    }
    assert(q * (SCALE * SCALE) >= (l * l) * (SCALE * SCALE)) by (nonlinear_arith)
        requires
            q >= l * l,
    {
    }
    assert(s2 >= SCALE * SCALE - 6 * SCALE) by (nonlinear_arith)
        requires
            l * l * s2 >= (l * l) * (SCALE * SCALE) - 6 * SCALE * (l * l),
            l >= 1,
    {
    }
}

/// Scales a normal to unit length, or reports that its length is zero (a
/// degenerate sample, which the rasterizer skips).  Every component of a
/// normalized vector stays within one unit.
pub fn normalize(n: Vec3) -> (r: Option<Vec3>)
    requires
        -50 * SCALE <= n.x <= 50 * SCALE,
        -50 * SCALE <= n.y <= 50 * SCALE,
        -50 * SCALE <= n.z <= 50 * SCALE,
    ensures
        r is Some <==> sq_len_spec((n.x as int, n.y as int, n.z as int)) != 0,
        r is Some ==> {
            let nn = normalized_spec((n.x as int, n.y as int, n.z as int));
            &&& (r.unwrap().x as int, r.unwrap().y as int, r.unwrap().z as int) == nn
            &&& -SCALE <= r.unwrap().x <= SCALE
            &&& -SCALE <= r.unwrap().y <= SCALE
            &&& -SCALE <= r.unwrap().z <= SCALE
        },
{
    proof {
        assert(0 <= n.x * n.x <= 2500 * SCALE * SCALE && 0 <= n.y * n.y <= 2500 * SCALE * SCALE
            && 0 <= n.z * n.z <= 2500 * SCALE * SCALE) by (nonlinear_arith)
            requires
                -50 * SCALE <= n.x <= 50 * SCALE,
                -50 * SCALE <= n.y <= 50 * SCALE,
                -50 * SCALE <= n.z <= 50 * SCALE,
                SCALE == 100_000,
        {
        }
    }
    let q = n.x * n.x + n.y * n.y + n.z * n.z;
    if q == 0 {
        None
    } else {
        let l64 = isqrt(q as u64);
        let l = l64 as i64;
        proof {
            let qi = q as int;
            assert(l >= 1);
            lemma_component_bound(n.x as int, qi, l as int);
            lemma_component_bound(n.y as int, qi, l as int);
            lemma_component_bound(n.z as int, qi, l as int);
            assert(-SCALE * l <= n.x * SCALE <= SCALE * l && -SCALE * l <= n.y * SCALE <= SCALE
                * l && -SCALE * l <= n.z * SCALE <= SCALE * l) by (nonlinear_arith)
                requires
                    -l <= n.x <= l,
                    -l <= n.y <= l,
                    -l <= n.z <= l,
                    SCALE > 0,
            {
            }
            crate::fx::lemma_tdiv_bound(n.x * SCALE, l as int, SCALE as int);
            crate::fx::lemma_tdiv_bound(n.y * SCALE, l as int, SCALE as int);
            crate::fx::lemma_tdiv_bound(n.z * SCALE, l as int, SCALE as int);
        }
        let rx = (n.x * SCALE) / l;
        let ry = (n.y * SCALE) / l;
        let rz = (n.z * SCALE) / l;
        Some(Vec3 { x: rx, y: ry, z: rz })
    }
}

} // verus!
