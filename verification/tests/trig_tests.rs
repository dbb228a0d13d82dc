use heart_ascii::fx::HALF_PI_FX;
use heart_ascii::fx::PI_FX;
use heart_ascii::fx::SCALE;
use heart_ascii::fx::TWO_PI_FX;
use heart_ascii::trig::cos_fx;
use heart_ascii::trig::sin_fx;

#[test]
fn sine_anchor_points() {
    assert_eq!(sin_fx(0), 0);
    assert_eq!(sin_fx(HALF_PI_FX), SCALE);
    assert_eq!(sin_fx(PI_FX), 0);
    assert_eq!(sin_fx(TWO_PI_FX), 0);
    assert_eq!(cos_fx(0), SCALE);
    assert_eq!(cos_fx(PI_FX), -SCALE);
}

// The fixed-point sine tracks the real sine to a few thousandths over
// several turns.
#[test]
fn sine_tracks_real_sine() {
    let mut x: i64 = 0;
    while x <= 4 * TWO_PI_FX {
        let approx = sin_fx(x) as f64 / SCALE as f64;
        let exact = (x as f64 / SCALE as f64).sin();
        assert!((approx - exact).abs() < 0.004, "x={} approx={} exact={}", x, approx, exact);
        assert!(sin_fx(x) >= -SCALE && sin_fx(x) <= SCALE);
        x += 1_777;
    }
}

#[test]
fn cosine_tracks_real_cosine() {
    let mut x: i64 = 0;
    while x <= 2 * TWO_PI_FX {
        let approx = cos_fx(x) as f64 / SCALE as f64;
        let exact = (x as f64 / SCALE as f64).cos();
        assert!((approx - exact).abs() < 0.004, "x={} approx={} exact={}", x, approx, exact);
        x += 2_333;
    }
}
