use heart_ascii::fx::SCALE;
use heart_ascii::surface::isqrt;
use heart_ascii::surface::normalize;
use heart_ascii::surface::rotated_sample;
use heart_ascii::surface::Vec3;

#[test]
fn isqrt_exact_and_floor() {
    assert_eq!(isqrt(0), 0);
    assert_eq!(isqrt(1), 1);
    assert_eq!(isqrt(3), 1);
    assert_eq!(isqrt(4), 2);
    assert_eq!(isqrt(999_999), 999);
    assert_eq!(isqrt(1_000_000), 1000);
    assert_eq!(isqrt(10_000_000_000_000), 3_162_277);
}

#[test]
fn normalize_pythagorean() {
    // (3, 4, 0) scaled: length 5, so the unit vector is (0.6, 0.8, 0).
    let n = normalize(Vec3 { x: 3 * SCALE, y: 4 * SCALE, z: 0 }).unwrap();
    assert_eq!(n.x, 60_000);
    assert_eq!(n.y, 80_000);
    assert_eq!(n.z, 0);
    assert_eq!(n.x * n.x + n.y * n.y + n.z * n.z, SCALE * SCALE);
}

#[test]
fn normalize_zero_is_degenerate() {
    assert!(normalize(Vec3 { x: 0, y: 0, z: 0 }).is_none());
}

// The squared length after normalization stays within the proven
// truncation tolerance of one square unit.
#[test]
fn normalized_unit_length_tolerance() {
    let samples = [
        (123_456i64, -654_321i64, 777_777i64),
        (1_000_000, 1, -1),
        (-5, 12, 84),
        (250_000, 250_000, 250_000),
        (-4_000_000, 2_500_000, -1_000_000),
    ];
    for (x, y, z) in samples {
        let q = (x * x + y * y + z * z) as u64;
        let l = isqrt(q) as i64;
        let n = normalize(Vec3 { x, y, z }).unwrap();
        let s2 = n.x * n.x + n.y * n.y + n.z * n.z;
        assert!(s2 >= SCALE * SCALE - 6 * SCALE, "s2={}", s2);
        assert!(l * s2 <= l * SCALE * SCALE + 2 * SCALE * SCALE, "s2={}", s2);
    }
}

// With both angles zero the rotation is the identity on the fixed-point
// grid, so the rotated point is the raw surface point; at u = v = pi/2
// the heart formulas give x = 15*sin(pi/2) - 4*sin(3*pi/2) = 19, y = 0.
#[test]
fn sample_at_zero_angles() {
    let half_pi = 157_080;
    let (p, _n) = rotated_sample(0, 0, half_pi, half_pi);
    assert_eq!(p.x, 19 * SCALE);
    assert_eq!(p.y, 0);
}

// The normal fed through normalization is unit length for a generic
// surface sample.
#[test]
fn rotated_normal_normalizes() {
    let (_p, n) = rotated_sample(40_000, 80_000, 123_000, 61_000);
    let nn = normalize(n).unwrap();
    let s2 = nn.x * nn.x + nn.y * nn.y + nn.z * nn.z;
    assert!((s2 - SCALE * SCALE).abs() <= 6 * SCALE, "s2={}", s2);
}
