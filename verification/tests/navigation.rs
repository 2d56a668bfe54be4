use fractal_viewport::navigation::{recompute, PickPoint, ZoomDirection};
use fractal_viewport::rational::{Rat, COORD_BOUND};
use fractal_viewport::rect::{ComplexRect, PlanePoint};

fn rat(num: i64, den: i64) -> Rat {
    Rat::new(num, den).unwrap()
}

fn initial() -> ComplexRect {
    ComplexRect::default()
}

fn center_pick() -> PickPoint {
    PickPoint { px: rat(1, 2), py: rat(1, 2) }
}

#[test]
fn navigation_deterministic() {
    let pick = PickPoint { px: rat(1, 3), py: rat(2, 3) };
    let first = recompute(&initial(), pick, ZoomDirection::In);
    let second = recompute(&initial(), pick, ZoomDirection::In);
    assert_eq!(first, second);
    let third = recompute(&initial(), center_pick(), ZoomDirection::Out);
    let fourth = recompute(&initial(), center_pick(), ZoomDirection::Out);
    assert_eq!(third, fourth);
}

#[test]
fn keyboard_zoom_in_exact_coordinates() {
    let next = recompute(&initial(), center_pick(), ZoomDirection::In).unwrap();
    assert_eq!(next.upper_left.re, rat(-45, 64));
    assert_eq!(next.upper_left.im, rat(45, 64));
    assert_eq!(next.lower_right.re, rat(-3, 64));
    assert_eq!(next.lower_right.im, rat(3, 64));
}

#[test]
fn keyboard_zoom_preserves_center() {
    let before = initial().center().unwrap();
    assert_eq!(before.re, rat(-3, 8));
    assert_eq!(before.im, rat(3, 8));
    let next = recompute(&initial(), center_pick(), ZoomDirection::In).unwrap();
    let after = next.center().unwrap();
    assert!(after.re.eq_value(&before.re));
    assert!(after.im.eq_value(&before.im));
}

#[test]
fn zoom_in_shrink_ratio() {
    let before = initial().extent().unwrap();
    assert_eq!(before.re, rat(3, 4));
    assert_eq!(before.im, rat(-3, 4));
    let next = recompute(&initial(), center_pick(), ZoomDirection::In).unwrap();
    let after = next.extent().unwrap();
    // 7/8 of the old extent along each axis: 7/8 * 3/4 = 21/32.
    assert_eq!(after.re, rat(21, 32));
    assert_eq!(after.im, rat(-21, 32));
}

#[test]
fn zoom_out_growth_ratio() {
    let next = recompute(&initial(), center_pick(), ZoomDirection::Out).unwrap();
    assert_eq!(next.upper_left.re, rat(-51, 64));
    assert_eq!(next.lower_right.re, rat(3, 64));
    let after = next.extent().unwrap();
    // 9/8 of the old extent along each axis: 9/8 * 3/4 = 27/32.
    assert_eq!(after.re, rat(27, 32));
    assert_eq!(after.im, rat(-27, 32));
    let center = next.center().unwrap();
    assert_eq!(center.re, rat(-3, 8));
    assert_eq!(center.im, rat(3, 8));
}

#[test]
fn recenter_on_bottom_right_corner() {
    let pick = PickPoint { px: rat(1, 1), py: rat(1, 1) };
    let next = recompute(&initial(), pick, ZoomDirection::In).unwrap();
    // The picked plane point at (1, 1) is the old lower-right corner (0, 0),
    // and it becomes the new center.
    let center = next.center().unwrap();
    assert_eq!(center.re, rat(0, 1));
    assert_eq!(center.im, rat(0, 1));
    assert_eq!(next.upper_left.re, rat(-21, 64));
    assert_eq!(next.upper_left.im, rat(21, 64));
    assert_eq!(next.lower_right.re, rat(21, 64));
    assert_eq!(next.lower_right.im, rat(-21, 64));
}

#[test]
fn out_of_range_navigation_is_rejected() {
    let upper_left = PlanePoint { re: rat(1, COORD_BOUND), im: rat(1, 1) };
    let lower_right = PlanePoint { re: rat(0, 1), im: rat(0, 1) };
    let rect = ComplexRect::new(upper_left, lower_right).unwrap();
    assert_eq!(recompute(&rect, center_pick(), ZoomDirection::In), None);
}

#[test]
fn rat_construction_reduces_and_normalizes_sign() {
    assert_eq!(rat(2, 4), Rat { num: 1, den: 2 });
    assert_eq!(rat(1, -2), Rat { num: -1, den: 2 });
    assert_eq!(rat(-6, -4), Rat { num: 3, den: 2 });
    assert_eq!(rat(0, 7), Rat { num: 0, den: 1 });
    assert_eq!(Rat::new(1, 0), None);
    assert_eq!(Rat::new(i64::MIN, i64::MIN), Some(Rat { num: 1, den: 1 }));
    assert_eq!(Rat::new(COORD_BOUND, 1), Some(Rat { num: COORD_BOUND, den: 1 }));
    assert_eq!(Rat::new(2 * COORD_BOUND, 2), Some(Rat { num: COORD_BOUND, den: 1 }));
    assert_eq!(Rat::new(2 * COORD_BOUND, 3), None);
}

#[test]
fn rat_value_equality_and_unit_interval() {
    assert!(rat(1, 2).eq_value(&Rat { num: 2, den: 4 }));
    assert!(!rat(1, 2).eq_value(&rat(1, 3)));
    assert!(rat(1, 2).is_in_unit());
    assert!(rat(0, 1).is_in_unit());
    assert!(rat(1, 1).is_in_unit());
    assert!(!rat(3, 2).is_in_unit());
    assert!(!rat(-1, 2).is_in_unit());
}

#[test]
fn degenerate_rectangles_are_rejected() {
    let corner = PlanePoint { re: rat(1, 2), im: rat(1, 3) };
    let other = PlanePoint { re: rat(2, 4), im: rat(0, 1) };
    // The corners coincide along the real axis.
    assert_eq!(ComplexRect::new(corner, other), None);
}
