//! Projection, depth-tested rasterization, and the frame renderer.
//!
//! A frame is a `screen_height` by `screen_width` grid of shading
//! characters.  The renderer walks the whole parameter grid — `u` over
//! `[0, 2*pi)` and, for each `u`, `v` over `[0, pi)`, both in steps of
//! 0.02 — transforms each sample, projects it with a perspective divide at
//! camera distance 70, and lets the sample with the largest reciprocal
//! depth `ooz` win each pixel.  The whole frame is specified as a pure
//! function of the inputs (`frame_cell`), so rendering is deterministic.
//!
//! A projected coordinate that truncates to a negative value is treated as
//! off-screen and discarded, as is any sample beyond the screen bounds; a
//! sample whose normal has zero length is skipped.

use crate::fx::mul_fx;
use crate::fx::mul_fx_spec;
use crate::fx::tdiv;
use crate::fx::HALF_SCALE;
use crate::fx::PI_FX;
use crate::fx::SCALE;
use crate::fx::TWO_PI_FX;
use crate::luminance::luma_index;
use crate::luminance::luma_index_spec;
use crate::luminance::ramp_char;
use crate::luminance::ramp_char_spec;
use crate::range::FloatRangeIter;
use crate::surface::normalize;
use crate::surface::normalized_spec;
use crate::surface::rotated_normal_spec;
use crate::surface::rotated_pos_spec;
use crate::surface::rotated_sample;
use crate::surface::sq_len_spec;
use vstd::arithmetic::div_mod::lemma_div_non_zero;
use vstd::prelude::*;

verus! {

/// The parameter step of 0.02 radians, in ticks.
pub const UV_STEP: i64 = 2_000;

/// How many `u` samples a frame takes: `(2 * pi) / 0.02` truncated.
pub const N_U: usize = 314;

/// How many `v` samples each `u` takes: `pi / 0.02` truncated.
pub const N_V: usize = 157;

/// The camera's distance from the origin along the depth axis, in ticks.
pub const Z_OFFSET_FX: i64 = 7_000_000;

/// The blank character that fills a fresh frame.
pub const BLANK: u8 = 32;

/// The depth cell value meaning that no sample has won the pixel yet:
/// smaller than every reciprocal depth.
pub const DEPTH_EMPTY: i64 = i64::MIN;

/// The reciprocal depth of a rotated point: `1 / (z + 70)` in ticks.
/// Larger means nearer to the camera.
pub open spec fn ooz_spec(z2: int) -> int {
    tdiv(SCALE * SCALE, z2 + Z_OFFSET_FX)
}

/// The screen column of a projected point: `w/2 + x * ooz * w` truncated.
pub open spec fn col_spec(x2: int, ooz: int, w: int) -> int {
    tdiv(w * HALF_SCALE + mul_fx_spec(x2, ooz) * w, SCALE as int)
}

/// The screen row of a projected point: `h/2 - y * ooz * h` truncated.
pub open spec fn row_spec(y2: int, ooz: int, h: int) -> int {
    tdiv(h * HALF_SCALE - mul_fx_spec(y2, ooz) * h, SCALE as int)
}

/// What one parameter sample contributes to a `w` by `h` frame rendered at
/// angles `a` and `b`: the screen row and column it lands on, its
/// reciprocal depth, and its shading character — or nothing, when its
/// normal is degenerate or its projection falls off the screen.
pub open spec fn sample_spec(a: int, b: int, u: int, v: int, w: int, h: int) -> Option<
    (int, int, int, u8),
> {
    let pos = rotated_pos_spec(a, b, u, v);
    let nrm = rotated_normal_spec(a, b, u, v);
    if sq_len_spec(nrm) == 0 {
        None
    } else {
        let nn = normalized_spec(nrm);
        let ooz = ooz_spec(pos.2);
        let col = col_spec(pos.0, ooz, w);
        let row = row_spec(pos.1, ooz, h);
        if 0 <= col < w && 0 <= row < h {
            Some((row, col, ooz, ramp_char_spec(luma_index_spec(-nn.2))))
        } else {
            None
        }
    }
}

/// The state of one pixel — its depth cell and its character — after the
/// first `i` full `u` columns and `j` further `v` samples of the parameter
/// grid have been rasterized, starting from a blank frame.  A sample
/// overwrites a pixel only when its reciprocal depth is strictly larger
/// than what the pixel holds.
pub open spec fn frame_cell(a: int, b: int, w: int, h: int, i: nat, j: nat, r: int, c: int) -> (
    int,
    u8,
)
    decreases i, j,
{
    if j > 0 {
        let prev = frame_cell(a, b, w, h, i, (j - 1) as nat, r, c);
        match sample_spec(a, b, UV_STEP * i, UV_STEP * (j - 1), w, h) {
            Some(s) => if s.0 == r && s.1 == c && s.2 > prev.0 {
                (s.2, s.3)
            } else {
                prev
            },
            None => prev,
        }
    } else if i > 0 {
        frame_cell(a, b, w, h, (i - 1) as nat, N_V as nat, r, c)
    } else {
        (DEPTH_EMPTY as int, BLANK)
    }
}

/// Whether the parameter sample at grid position `(i2, j2)` lands on the
/// pixel `(r, c)`.
pub open spec fn hits_pixel(a: int, b: int, w: int, h: int, i2: nat, j2: nat, r: int, c: int) -> bool {
    match sample_spec(a, b, UV_STEP * i2, UV_STEP * j2, w, h) {
        Some(s) => s.0 == r && s.1 == c,
        None => false,
    }
}

/// The reciprocal depth of the sample at grid position `(i2, j2)`.
pub open spec fn sample_ooz(a: int, b: int, w: int, h: int, i2: nat, j2: nat) -> int {
    match sample_spec(a, b, UV_STEP * i2, UV_STEP * j2, w, h) {
        Some(s) => s.2,
        None => DEPTH_EMPTY as int,
    }
}

/// The shading character of the sample at grid position `(i2, j2)`.
pub open spec fn sample_ch(a: int, b: int, w: int, h: int, i2: nat, j2: nat) -> u8 {
    match sample_spec(a, b, UV_STEP * i2, UV_STEP * j2, w, h) {
        Some(s) => s.3,
        None => BLANK,
    }
}

/// Depth-test monotonicity, step form: rasterizing one more sample never
/// lowers a pixel's depth cell, and changes the pixel's character only
/// when the new reciprocal depth is strictly larger than the old one.
pub proof fn lemma_depth_monotonic(
    a: int,
    b: int,
    w: int,
    h: int,
    i: nat,
    j: nat,
    r: int,
    c: int,
)
    ensures
        frame_cell(a, b, w, h, i, (j + 1) as nat, r, c).0 >= frame_cell(a, b, w, h, i, j, r, c).0,
        frame_cell(a, b, w, h, i, (j + 1) as nat, r, c).1 != frame_cell(a, b, w, h, i, j, r, c).1
            ==> frame_cell(a, b, w, h, i, (j + 1) as nat, r, c).0 > frame_cell(
            a,
            b,
            w,
            h,
            i,
            j,
            r,
            c,
        ).0,
{
}

/// Depth-test maximality: after the rasterization has passed the grid
/// position `(i2, j2)`, the depth cell of the pixel that its sample hit is
/// at least that sample's reciprocal depth — so the character finally
/// stored at a pixel belongs to a sample of maximal reciprocal depth
/// among those that hit it.
pub proof fn lemma_depth_dominates(
    a: int,
    b: int,
    w: int,
    h: int,
    i: nat,
    j: nat,
    i2: nat,
    j2: nat,
    r: int,
    c: int,
)
    requires
        i2 < i || (i2 == i && j2 < j),
        j2 < N_V,
        hits_pixel(a, b, w, h, i2, j2, r, c),
    ensures
        frame_cell(a, b, w, h, i, j, r, c).0 >= sample_ooz(a, b, w, h, i2, j2),
    decreases i, j,
{
    if j > 0 {
        if i2 == i && j2 == j - 1 {
        } else {
            lemma_depth_dominates(a, b, w, h, i, (j - 1) as nat, i2, j2, r, c);
        }
    } else {
        lemma_depth_dominates(a, b, w, h, (i - 1) as nat, N_V as nat, i2, j2, r, c);
    }
}

/// Every pixel that was ever written holds exactly the reciprocal depth
/// and the character of one of the samples that hit it — rasterization
/// invents no pixel values.
pub proof fn lemma_winner_exists(
    a: int,
    b: int,
    w: int,
    h: int,
    i: nat,
    j: nat,
    r: int,
    c: int,
)
    requires
        j <= N_V,
        frame_cell(a, b, w, h, i, j, r, c).0 != DEPTH_EMPTY,
    ensures
        exists|p: (nat, nat)|
            {
                &&& p.0 < i || (p.0 == i && p.1 < j)
                &&& p.1 < N_V
                &&& #[trigger] hits_pixel(a, b, w, h, p.0, p.1, r, c)
                &&& sample_ooz(a, b, w, h, p.0, p.1) == frame_cell(a, b, w, h, i, j, r, c).0
                &&& sample_ch(a, b, w, h, p.0, p.1) == frame_cell(a, b, w, h, i, j, r, c).1
            },
    decreases i, j,
{
    let cell = frame_cell(a, b, w, h, i, j, r, c);
    if j > 0 {
        let prev = frame_cell(a, b, w, h, i, (j - 1) as nat, r, c);
        if cell != prev {
            let p = ((i, (j - 1) as nat));
            assert(hits_pixel(a, b, w, h, p.0, p.1, r, c));
            assert(sample_ooz(a, b, w, h, p.0, p.1) == cell.0);
        } else {
            lemma_winner_exists(a, b, w, h, i, (j - 1) as nat, r, c);
            let p = choose|p: (nat, nat)|
                {
                    &&& p.0 < i || (p.0 == i && p.1 < (j - 1) as nat)
                    &&& p.1 < N_V
                    &&& #[trigger] hits_pixel(a, b, w, h, p.0, p.1, r, c)
                    &&& sample_ooz(a, b, w, h, p.0, p.1) == prev.0
                    &&& sample_ch(a, b, w, h, p.0, p.1) == prev.1
                };
            assert(hits_pixel(a, b, w, h, p.0, p.1, r, c));
        }
    } else {
        lemma_winner_exists(a, b, w, h, (i - 1) as nat, N_V as nat, r, c);
        let p = choose|p: (nat, nat)|
            {
                &&& p.0 < (i - 1) as nat || (p.0 == (i - 1) as nat && p.1 < N_V as nat)
                &&& p.1 < N_V
                &&& #[trigger] hits_pixel(a, b, w, h, p.0, p.1, r, c)
                &&& sample_ooz(a, b, w, h, p.0, p.1) == cell.0
                &&& sample_ch(a, b, w, h, p.0, p.1) == cell.1
            };
        assert(hits_pixel(a, b, w, h, p.0, p.1, r, c));
    }
}

/// Computes one sample's contribution: `sample_spec`, executably.
pub fn compute_sample(a: i64, b: i64, u: i64, v: i64, w: usize, h: usize) -> (r: Option<
    (usize, usize, i64, u8),
>)
    requires
        0 <= a <= TWO_PI_FX,
        0 <= b <= TWO_PI_FX,
        0 <= u <= TWO_PI_FX,
        0 <= v <= PI_FX,
        1 <= w <= 10_000,
        1 <= h <= 10_000,
    ensures
        match r {
            Some(s) => {
                &&& sample_spec(a as int, b as int, u as int, v as int, w as int, h as int)
                    == Some((s.0 as int, s.1 as int, s.2 as int, s.3))
                &&& s.0 < h
                &&& s.1 < w
            },
            None => sample_spec(a as int, b as int, u as int, v as int, w as int, h as int)
                is None,
        },
{
    let (pos, nrm) = rotated_sample(a, b, u, v);
    match normalize(nrm) {
        None => None,
        Some(nn) => {
            let denom = pos.z + Z_OFFSET_FX;
            proof {
                assert(denom >= 20 * SCALE);
                lemma_div_non_zero(SCALE * SCALE, denom as int);
                assert(SCALE * SCALE <= SCALE * denom) by (nonlinear_arith)
                    requires
                        SCALE <= denom,
                        0 < SCALE,
                {
                }
            }
            let ooz = (SCALE * SCALE) / denom;
            proof {
                crate::fx::lemma_tdiv_bound(SCALE * SCALE, denom as int, SCALE as int);
                assert(1 <= ooz <= SCALE);
                crate::fx::lemma_mul_bound(pos.x as int, ooz as int, 42 * SCALE, SCALE as int);
            }
            let t = mul_fx(pos.x, ooz);
            proof {
                crate::fx::lemma_tdiv_bound(pos.x * ooz, SCALE as int, 42 * SCALE);
                crate::fx::lemma_mul_bound(t as int, w as int, 42 * SCALE, 10_000);
            }
            let xf = (w as i64) * HALF_SCALE + t * (w as i64);
            let col_i = xf / SCALE;
            proof {
                crate::fx::lemma_mul_bound(pos.y as int, ooz as int, 50 * SCALE, SCALE as int);
            }
            let ty = mul_fx(pos.y, ooz);
            proof {
                crate::fx::lemma_tdiv_bound(pos.y * ooz, SCALE as int, 50 * SCALE);
                crate::fx::lemma_mul_bound(ty as int, h as int, 50 * SCALE, 10_000);
            }
            let yf = (h as i64) * HALF_SCALE - ty * (h as i64);
            let row_i = yf / SCALE;
            if 0 <= col_i && col_i < w as i64 && 0 <= row_i && row_i < h as i64 {
                let luma = -nn.z;
                let idx = luma_index(luma);
                let ch = ramp_char(idx);
                Some((row_i as usize, col_i as usize, ooz, ch))
            } else {
                None
            }
        },
    }
}

/// Distinct pixels have distinct row-major indices.
proof fn lemma_flat_injective(w: int, r1: int, c1: int, r2: int, c2: int)
    requires
        0 <= c1 < w,
        0 <= c2 < w,
        0 <= r1,
        0 <= r2,
        r1 * w + c1 == r2 * w + c2,
    ensures
        r1 == r2 && c1 == c2,
{
    assert(r1 == r2 && c1 == c2) by (nonlinear_arith)
        requires
            0 <= c1 < w,
            0 <= c2 < w,
            0 <= r1,
            0 <= r2,
            r1 * w + c1 == r2 * w + c2,
    {
    }
}

/// A row-major index of a pixel within the screen lies within the buffer.
proof fn lemma_flat_in_bounds(w: int, h: int, r: int, c: int)
    requires
        0 <= c < w,
        0 <= r < h,
        w <= 10_000,
        h <= 10_000,
    ensures
        0 <= r * w + c < h * w,
        h * w <= 100_000_000,
{
    assert(0 <= r * w + c < h * w && h * w <= 100_000_000) by (nonlinear_arith)
        requires
            0 <= c < w,
            0 <= r < h,
            w <= 10_000,
            h <= 10_000,
    {
    }
}

/// Renders one frame: a grid of `h` rows of `w` shading characters, the
/// result of rasterizing every parameter sample with depth testing.  The
/// grid is a pure function of the four inputs — the ensured `frame_cell`
/// fixes every character — so rendering the same inputs twice gives the
/// same frame.
pub fn render_frame(a: i64, b: i64, w: usize, h: usize) -> (grid: Vec<Vec<u8>>)
    requires
        0 <= a <= TWO_PI_FX,
        0 <= b <= TWO_PI_FX,
        1 <= w <= 10_000,
        1 <= h <= 10_000,
    ensures
        grid.len() == h,
        forall|r: int| 0 <= r < h ==> #[trigger] grid@[r]@.len() == w,
        forall|r: int, c: int|
            0 <= r < h && 0 <= c < w ==> #[trigger] grid@[r]@[c] == frame_cell(
                a as int,
                b as int,
                w as int,
                h as int,
                N_U as nat,
                0,
                r,
                c,
            ).1,
{
    let ghost ai = a as int;
    let ghost bi = b as int;
    let ghost wi = w as int;
    let ghost hi = h as int;

    proof {
        assert(w * h <= 100_000_000) by (nonlinear_arith)
            requires
                w <= 10_000,
                h <= 10_000,
        {
        }
    }
    let size = w * h;
    let mut chars: Vec<u8> = Vec::new();
    let mut depth: Vec<i64> = Vec::new();
    let mut k: usize = 0;
    while k < size
        invariant
            k <= size,
            chars@.len() == k,
            depth@.len() == k,
            forall|t: int| 0 <= t < k ==> #[trigger] chars@[t] == BLANK,
            forall|t: int| 0 <= t < k ==> #[trigger] depth@[t] == DEPTH_EMPTY,
        decreases size - k,
    {
        chars.push(BLANK);
        depth.push(DEPTH_EMPTY);
        k = k + 1;
    }

    proof {
        assert forall|r: int, c: int| 0 <= r < hi && 0 <= c < wi implies #[trigger] depth@[r * wi
            + c] == frame_cell(ai, bi, wi, hi, 0, 0, r, c).0 by {
            lemma_flat_in_bounds(wi, hi, r, c);
        }
        assert forall|r: int, c: int| 0 <= r < hi && 0 <= c < wi implies #[trigger] chars@[r * wi
            + c] == frame_cell(ai, bi, wi, hi, 0, 0, r, c).1 by {
            lemma_flat_in_bounds(wi, hi, r, c);
        }
    }

    let mut ur = FloatRangeIter::new(0, TWO_PI_FX, UV_STEP);
    assert(ur.size_spec() == N_U);
    let mut i: usize = 0;
    while i < N_U
        invariant
            0 <= a <= TWO_PI_FX,
            0 <= b <= TWO_PI_FX,
            1 <= w <= 10_000,
            1 <= h <= 10_000,
            ai == a as int,
            bi == b as int,
            wi == w as int,
            hi == h as int,
            i <= N_U,
            ur.wf(),
            ur.start_spec() == 0,
            ur.end_spec() == TWO_PI_FX,
            ur.step_spec() == UV_STEP,
            ur.size_spec() == N_U,
            ur.current_spec() == i,
            chars@.len() == w * h,
            depth@.len() == w * h,
            forall|r: int, c: int|
                0 <= r < hi && 0 <= c < wi ==> #[trigger] depth@[r * wi + c] == frame_cell(
                    ai,
                    bi,
                    wi,
                    hi,
                    i as nat,
                    0,
                    r,
                    c,
                ).0,
            forall|r: int, c: int|
                0 <= r < hi && 0 <= c < wi ==> #[trigger] chars@[r * wi + c] == frame_cell(
                    ai,
                    bi,
                    wi,
                    hi,
                    i as nat,
                    0,
                    r,
                    c,
                ).1,
        decreases N_U - i,
    {
        let uo = ur.next();
        let u = uo.unwrap();
        assert(u == UV_STEP * i as int);
        let mut vr = FloatRangeIter::new(0, PI_FX, UV_STEP);
        assert(vr.size_spec() == N_V);
        let mut j: usize = 0;
        while j < N_V
            invariant
                0 <= a <= TWO_PI_FX,
                0 <= b <= TWO_PI_FX,
                1 <= w <= 10_000,
                1 <= h <= 10_000,
                ai == a as int,
                bi == b as int,
                wi == w as int,
                hi == h as int,
                i < N_U,
                j <= N_V,
                u == UV_STEP * i as int,
                0 <= u < TWO_PI_FX,
                vr.wf(),
                vr.start_spec() == 0,
                vr.end_spec() == PI_FX,
                vr.step_spec() == UV_STEP,
                vr.size_spec() == N_V,
                vr.current_spec() == j,
                chars@.len() == w * h,
                depth@.len() == w * h,
                forall|r: int, c: int|
                    0 <= r < hi && 0 <= c < wi ==> #[trigger] depth@[r * wi + c] == frame_cell(
                        ai,
                        bi,
                        wi,
                        hi,
                        i as nat,
                        j as nat,
                        r,
                        c,
                    ).0,
                forall|r: int, c: int|
                    0 <= r < hi && 0 <= c < wi ==> #[trigger] chars@[r * wi + c] == frame_cell(
                        ai,
                        bi,
                        wi,
                        hi,
                        i as nat,
                        j as nat,
                        r,
                        c,
                    ).1,
            decreases N_V - j,
        {
            let vo = vr.next();
            let v = vo.unwrap();
            assert(v == UV_STEP * j as int);
            let s = compute_sample(a, b, u, v, w, h);
            let ghost pre_depth = depth@;
            let ghost pre_chars = chars@;
            match s {
                None => {},
                Some((row, col, ooz, ch)) => {
                    proof {
                        lemma_flat_in_bounds(wi, hi, row as int, col as int);
                    }
                    let idx = row * w + col;
                    if ooz > depth[idx] {
                        depth[idx] = ooz;
                        chars[idx] = ch;
                    }
                },
            }
            proof {
                assert forall|r: int, c: int| 0 <= r < hi && 0 <= c < wi implies #[trigger] depth@[
                    r * wi + c
                ] == frame_cell(ai, bi, wi, hi, i as nat, (j + 1) as nat, r, c).0 by {
                    lemma_flat_in_bounds(wi, hi, r, c);
                    assert(pre_depth[r * wi + c] == frame_cell(
                        ai,
                        bi,
                        wi,
                        hi,
                        i as nat,
                        j as nat,
                        r,
                        c,
                    ).0);
                    match s {
                        None => {},
                        Some((row, col, ooz, ch)) => {
                            if r == row as int && c == col as int {
                            } else {
                                if r * wi + c == (row as int) * wi + (col as int) {
                                    lemma_flat_injective(wi, r, c, row as int, col as int);
                                }
                            }
                        },
                    }
                }
                assert forall|r: int, c: int| 0 <= r < hi && 0 <= c < wi implies #[trigger] chars@[
                    r * wi + c
                ] == frame_cell(ai, bi, wi, hi, i as nat, (j + 1) as nat, r, c).1 by {
                    lemma_flat_in_bounds(wi, hi, r, c);
                    assert(pre_chars[r * wi + c] == frame_cell(
                        ai,
                        bi,
                        wi,
                        hi,
                        i as nat,
                        j as nat,
                        r,
                        c,
                    ).1);
                    assert(pre_depth[r * wi + c] == frame_cell(
                        ai,
                        bi,
                        wi,
                        hi,
                        i as nat,
                        j as nat,
                        r,
                        c,
                    ).0);
                    match s {
                        None => {},
                        Some((row, col, ooz, ch)) => {
                            if r == row as int && c == col as int {
                            } else {
                                if r * wi + c == (row as int) * wi + (col as int) {
                                    lemma_flat_injective(wi, r, c, row as int, col as int);
                                }
                            }
                        },
                    }
                }
            }
            j = j + 1;
        }
        i = i + 1;
    }

    let mut grid: Vec<Vec<u8>> = Vec::new();
    let mut r: usize = 0;
    while r < h
        invariant
            r <= h,
            wi == w as int,
            hi == h as int,
            1 <= w <= 10_000,
            1 <= h <= 10_000,
            chars@.len() == w * h,
            grid@.len() == r,
            forall|ri: int| 0 <= ri < r ==> #[trigger] grid@[ri]@.len() == wi,
            forall|ri: int, ci: int|
                0 <= ri < r && 0 <= ci < wi ==> #[trigger] grid@[ri]@[ci] == chars@[ri * wi + ci],
        decreases h - r,
    {
        let mut line: Vec<u8> = Vec::new();
        let mut c: usize = 0;
        while c < w
            invariant
                c <= w,
                r < h,
                wi == w as int,
                hi == h as int,
                1 <= w <= 10_000,
                1 <= h <= 10_000,
                chars@.len() == w * h,
                line@.len() == c,
                forall|ci: int| 0 <= ci < c ==> #[trigger] line@[ci] == chars@[r * wi + ci],
            decreases w - c,
        {
            proof {
                lemma_flat_in_bounds(wi, hi, r as int, c as int);
            }
            line.push(chars[r * w + c]);
            c = c + 1;
        }
        grid.push(line);
        r = r + 1;
    }
    grid
}

} // verus!
