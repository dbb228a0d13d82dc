use heart_ascii::anim::Animation;
use heart_ascii::fx::TWO_PI_FX;

#[test]
fn angles_advance_at_their_rates() {
    let mut anim = Animation::new();
    assert!(anim.is_playing());
    let (a0, b0) = anim.tick();
    assert_eq!((a0, b0), (0, 0));
    let (a1, b1) = anim.tick();
    assert_eq!((a1, b1), (5_000, 4_000));
    let (a2, b2) = anim.tick();
    assert_eq!((a2, b2), (10_000, 8_000));
}

// The angle `a` wraps after a full turn: 2*pi / 0.05 gives 125 steps.
#[test]
fn angle_a_wraps_at_full_turn() {
    let mut anim = Animation::new();
    let mut last_a: i64 = -1;
    for _ in 0..125 {
        let (a, _b) = anim.tick();
        assert!(a > last_a);
        assert!(a < TWO_PI_FX);
        last_a = a;
    }
    let (a, _b) = anim.tick();
    assert_eq!(a, 0);
}

#[test]
fn stop_request_is_sticky() {
    let mut anim = Animation::new();
    anim.tick();
    anim.stop_animation();
    assert!(!anim.is_playing());
    anim.tick();
    assert!(!anim.is_playing());
}
