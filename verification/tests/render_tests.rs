use heart_ascii::render::compute_sample;
use heart_ascii::render::render_frame;

// Rendering is a pure function of (a, b, w, h): repeating the call gives
// an identical character grid.
#[test]
fn frame_determinism() {
    let g1 = render_frame(40_000, 80_000, 80, 24);
    let g2 = render_frame(40_000, 80_000, 80, 24);
    assert_eq!(g1, g2);
}

#[test]
fn frame_dimensions() {
    let g = render_frame(100_000, 200_000, 97, 31);
    assert_eq!(g.len(), 31);
    for row in &g {
        assert_eq!(row.len(), 97);
    }
}

// With a = b = 0 on a 150 by 40 screen the frame shows the heart: it is
// non-empty, and its silhouette is mirror-symmetric about the vertical
// screen center.
#[test]
fn frame_zero_angles_heart() {
    let w = 150usize;
    let h = 40usize;
    let g = render_frame(0, 0, w, h);
    let mut non_blank = 0usize;
    for row in &g {
        for &ch in row {
            if ch != b' ' {
                non_blank += 1;
            }
        }
    }
    assert!(non_blank > 0);
    for r in 0..h {
        for c in 0..w {
            let here_blank = g[r][c] == b' ';
            let mirror_blank = g[r][w - 1 - c] == b' ';
            assert_eq!(here_blank, mirror_blank, "row {} col {}", r, c);
        }
    }
}

// Depth testing on a single pixel: with a 1-by-1 screen every visible
// sample lands on the same cell, and the frame keeps the character of the
// first sample that reaches the maximal reciprocal depth.
#[test]
fn depth_test_keeps_nearest_sample() {
    let a: i64 = 30_000;
    let b: i64 = 50_000;
    let mut best_ooz = i64::MIN;
    let mut best_ch = b' ';
    for i in 0..314i64 {
        for j in 0..157i64 {
            let u = 2_000 * i;
            let v = 2_000 * j;
            if let Some((row, col, ooz, ch)) = compute_sample(a, b, u, v, 1, 1) {
                assert_eq!(row, 0);
                assert_eq!(col, 0);
                if ooz > best_ooz {
                    best_ooz = ooz;
                    best_ch = ch;
                }
            }
        }
    }
    let g = render_frame(a, b, 1, 1);
    assert_eq!(g[0][0], best_ch);
}

// A sample's reciprocal depth is positive and its pixel lies on screen.
#[test]
fn samples_are_on_screen() {
    let mut seen = 0usize;
    for i in 0..314i64 {
        let u = 2_000 * i;
        if let Some((row, col, ooz, _ch)) = compute_sample(20_000, 10_000, u, 100_000, 150, 40) {
            assert!(row < 40 && col < 150);
            assert!(ooz > 0);
            seen += 1;
        }
    }
    assert!(seen > 0);
}
