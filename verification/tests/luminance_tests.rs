use heart_ascii::fx::SCALE;
use heart_ascii::luminance::luma_index;
use heart_ascii::luminance::ramp_char;

const RAMP: &[u8; 12] = b".,-~:;=!*#$@";

#[test]
fn ramp_characters() {
    for i in 0..12usize {
        assert_eq!(ramp_char(i), RAMP[i]);
    }
}

// luma = -1 maps to the darkest index, luma = 1 to the brightest.
#[test]
fn luma_extremes() {
    assert_eq!(luma_index(-SCALE), 0);
    assert_eq!(luma_index(SCALE), 11);
}

// The midpoint maps near the middle of the ramp: (0 + 1) * 5.5 = 5.5,
// truncated to 5.
#[test]
fn luma_midpoint() {
    assert_eq!(luma_index(0), 5);
}

// Every luminance within one unit maps into [0, 11].
#[test]
fn luma_index_in_range() {
    let mut luma = -SCALE;
    while luma <= SCALE {
        let idx = luma_index(luma);
        assert!(idx <= 11);
        luma += 997;
    }
    assert_eq!(luma_index(SCALE), 11);
}

#[test]
fn luma_exact_values() {
    // (luma/SCALE + 1) * 5.5 truncated:
    // 0.5 -> 8.25 -> 8; -0.5 -> 2.75 -> 2; 0.82 -> 10.01 -> 10.
    assert_eq!(luma_index(50_000), 8);
    assert_eq!(luma_index(-50_000), 2);
    assert_eq!(luma_index(82_000), 10);
}
