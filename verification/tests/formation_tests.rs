use invaders_core::formation::FormationMaker;
use invaders_core::num::{clamp_i64, isqrt, muldiv};
use invaders_core::trig::{atan2_milli, cos_milli, norm_angle, sin_milli};
use invaders_core::{WinSize, BASE_SPEED, SPRITE_SCALE};

fn win() -> WinSize {
    WinSize { w: 598_000, h: 676_000 }
}

#[test]
fn batch_shares_one_template() {
    let w = win();
    let mut maker = FormationMaker::default();
    let f1 = maker.make(&w);
    let f2 = maker.make(&w);
    assert_eq!(f1, f2);
    assert_eq!(maker.members, 2);
    let f3 = maker.make(&w);
    assert_ne!(f3, f1);
    assert_eq!(maker.members, 1);
    assert_eq!(maker.template, Some(f3));
}

#[test]
fn fresh_formation_ranges() {
    let w = win();
    let mut maker = FormationMaker::default();
    for _ in 0..50 {
        let mut m = FormationMaker::default();
        let f = m.make(&w);
        let w_span = w.w / 2 + 100_000;
        let h_span = w.h / 2 + 100_000;
        assert!(f.start.0 == w_span || f.start.0 == -w_span);
        assert!(-h_span <= f.start.1 && f.start.1 < h_span);
        assert!(-(w.w / 4) <= f.pivot.0 && f.pivot.0 < w.w / 4);
        assert!(0 <= f.pivot.1 && f.pivot.1 < w.h / 3 - 50_000);
        assert!(80_000 <= f.radius.0 && f.radius.0 < 150_000);
        assert_eq!(f.radius.1, 100_000);
        assert_eq!(f.speed, BASE_SPEED);
        assert_eq!(f.change_timer, 0);
        assert!(-20_000 <= f.pivot_delta.0 && f.pivot_delta.0 < 20_000);
        assert!(-20_000 <= f.pivot_delta.1 && f.pivot_delta.1 < 20_000);
        assert!(-10_000 <= f.radius_delta.0 && f.radius_delta.0 < 10_000);
        assert!(-10_000 <= f.radius_delta.1 && f.radius_delta.1 < 10_000);
        assert!(-10_000 <= f.speed_delta && f.speed_delta < 10_000);
        assert!(0 <= f.angle && f.angle < 6_283);
    }
    let _ = maker.make(&w);
}

#[test]
fn sprite_scale_constant() {
    assert_eq!(SPRITE_SCALE, 500);
}

#[test]
fn sine_and_cosine_landmarks() {
    assert_eq!(sin_milli(0), 0);
    assert_eq!(sin_milli(1_571), 999);
    assert_eq!(cos_milli(0), 999);
    assert_eq!(sin_milli(3_142), 0);
    assert!(sin_milli(4_712) < -990);
    for a in 0..6_283 {
        let s = sin_milli(a);
        let c = cos_milli(a);
        assert!((-1000..=1000).contains(&s));
        assert!((-1000..=1000).contains(&c));
    }
}

#[test]
fn bearing_landmarks() {
    assert_eq!(atan2_milli(0, 100), 0);
    assert_eq!(atan2_milli(100, 0), 1_571);
    assert_eq!(atan2_milli(0, -100), 3_142);
    let down = atan2_milli(-100, 0);
    assert!((4_700..4_730).contains(&down));
    assert_eq!(atan2_milli(0, 0), 0);
}

#[test]
fn angle_normalization() {
    assert_eq!(norm_angle(6_283), 0);
    assert_eq!(norm_angle(-1), 6_282);
    assert_eq!(norm_angle(6_284), 1);
    assert_eq!(norm_angle(-6_283), 0);
}

#[test]
fn integer_square_root() {
    assert_eq!(isqrt(0), 0);
    assert_eq!(isqrt(15), 3);
    assert_eq!(isqrt(16), 4);
    assert_eq!(isqrt(1_000_000), 1_000);
    assert_eq!(isqrt(999_999), 999);
}

#[test]
fn fixed_point_helpers() {
    assert_eq!(muldiv(-3, 7, 2), -10);
    assert_eq!(muldiv(3, 7, 2), 10);
    assert_eq!(muldiv(0, 7, 2), 0);
    assert_eq!(clamp_i64(5, 0, 3), 3);
    assert_eq!(clamp_i64(-5, 0, 3), 0);
    assert_eq!(clamp_i64(2, 0, 3), 2);
}
