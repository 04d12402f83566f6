use drill_core::bounded::Bounded;
use drill_core::collider::{Collider, Shape};
use drill_core::geometry::{Aabb2, Vec2};
use drill_core::random::{chord, isqrt, random_in_disc, random_upward};
use drill_core::scalar::{move_toward, mul_scaled, sat_add, sat_mul, sat_neg, sat_sub, saturate, UNIT};

#[test]
fn unit_is_one_thousand() {
    assert_eq!(UNIT, 1000);
}

#[test]
fn saturating_sums_stop_at_the_limits() {
    assert_eq!(sat_add(1, 2), 3);
    assert_eq!(sat_add(i64::MAX, 1), i64::MAX);
    assert_eq!(sat_add(i64::MIN, -1), i64::MIN);
    assert_eq!(sat_sub(5, 7), -2);
    assert_eq!(sat_sub(i64::MIN, 1), i64::MIN);
    assert_eq!(sat_sub(i64::MAX, -1), i64::MAX);
    assert_eq!(sat_neg(i64::MIN), i64::MAX);
    assert_eq!(sat_neg(7), -7);
    assert_eq!(saturate(i128::MAX), i64::MAX);
    assert_eq!(saturate(-5), -5);
}

#[test]
fn products_are_exact_and_saturate() {
    assert_eq!(sat_mul(6, 7), 42);
    assert_eq!(sat_mul(i64::MAX, 2), i64::MAX);
    assert_eq!(sat_mul(i64::MAX, -2), i64::MIN);
    assert_eq!(mul_scaled(1500, 2000), 3000);
    assert_eq!(mul_scaled(-1500, 2000), -3000);
    assert_eq!(mul_scaled(1, 999), 0);
    assert_eq!(mul_scaled(-1, 999), 0);
    assert_eq!(mul_scaled(i64::MAX, i64::MAX), i64::MAX);
}

#[test]
fn speed_approaches_its_target_by_bounded_steps() {
    assert_eq!(move_toward(0, 1000, 300), 300);
    assert_eq!(move_toward(900, 1000, 300), 1000);
    assert_eq!(move_toward(1000, 0, 300), 700);
    assert_eq!(move_toward(1000, 0, -300), 700);
    assert_eq!(move_toward(5, 5, 0), 5);
    assert_eq!(move_toward(i64::MIN, i64::MAX, i64::MAX), -1);
}

#[test]
fn gauge_constructors_hold_the_value_within_bounds() {
    let g = Bounded::<i64>::new(5, 0, 3);
    assert_eq!((g.value(), g.min(), g.max()), (3, 0, 3));
    let g = Bounded::<i64>::new(-5, -2, 3);
    assert_eq!(g.value(), -2);
    let g = Bounded::<i64>::new_max(7);
    assert_eq!((g.value(), g.min(), g.max()), (7, 0, 7));
    assert!(g.is_max());
    assert!(g.is_above_min());
    let g = Bounded::<i64>::new_zero(7);
    assert_eq!(g.value(), 0);
    assert!(g.is_min());
    assert!(!g.is_above_min());
    let g = Bounded::<i64>::new_min(2, 9);
    assert_eq!(g.value(), 2);
    assert!(g.is_min());
}

#[test]
fn gauge_change_is_clamped() {
    let mut g = Bounded::<i64>::new(5, 0, 10);
    g.change(3);
    assert_eq!(g.value(), 8);
    g.change(3);
    assert_eq!(g.value(), 10);
    g.change(-25);
    assert_eq!(g.value(), 0);
    g.change(i64::MAX);
    assert_eq!(g.value(), 10);
    g.spend(4);
    assert_eq!(g.value(), 6);
    g.spend(i64::MIN);
    assert_eq!(g.value(), 10);
    g.spend(i64::MAX);
    assert_eq!(g.value(), 0);
    g.set(7);
    assert_eq!(g.value(), 7);
    g.set(70);
    assert_eq!(g.value(), 10);
}

#[test]
fn gauge_ratio_round_trip() {
    let mut g = Bounded::<i64>::new(0, 100, 300);
    g.set_ratio(UNIT);
    assert_eq!(g.value(), 300);
    assert_eq!(g.get_ratio(), 1000);
    g.set_ratio(0);
    assert_eq!(g.value(), 100);
    assert_eq!(g.get_ratio(), 0);
    g.set_ratio(500);
    assert_eq!(g.value(), 200);
    assert_eq!(g.get_ratio(), 500);
    g.set_ratio(250);
    assert_eq!(g.value(), 150);
    assert_eq!(g.get_ratio(), 250);
    g.set_ratio(2000);
    assert_eq!(g.value(), 300);
    g.set_ratio(-2000);
    assert_eq!(g.value(), 100);
}

#[test]
fn gauge_ratio_of_a_gauge_without_room_is_zero() {
    let g = Bounded::<i64>::new(4, 4, 4);
    assert_eq!(g.get_ratio(), 0);
    assert!(g.is_min() && g.is_max());
}

#[test]
fn slot_gauge_counts_within_bounds() {
    let g = Bounded::<usize>::new(5, 0, 3);
    assert_eq!((g.value(), g.min(), g.max()), (3, 0, 3));
    assert!(g.is_max());
    let g = Bounded::<usize>::new(1, 0, 3);
    assert!(!g.is_max());
    assert!(g.is_above_min());
    let g = Bounded::<usize>::new_zero(0);
    assert!(g.is_max() && g.is_min());
    let g = Bounded::<usize>::new_max(4);
    assert_eq!(g.value(), 4);
}

#[test]
fn vectors_add_scale_and_saturate() {
    let a = Vec2::new(1000, -2000);
    let b = Vec2::new(500, 500);
    assert_eq!(a.add(b), Vec2::new(1500, -1500));
    assert_eq!(a.sub(b), Vec2::new(500, -2500));
    assert_eq!(a.scale(500), Vec2::new(500, -1000));
    assert_eq!(Vec2::zero(), Vec2::new(0, 0));
    assert_eq!(Vec2::new(i64::MAX, 0).add(Vec2::new(1, 1)), Vec2::new(i64::MAX, 1));
}

#[test]
fn rectangle_basics() {
    let r = Aabb2::from_corners(Vec2::new(4000, 1000), Vec2::new(0, 3000));
    assert_eq!(r.min, Vec2::new(0, 1000));
    assert_eq!(r.max, Vec2::new(4000, 3000));
    assert_eq!(r.center(), Vec2::new(2000, 2000));
    assert!(r.contains(Vec2::new(0, 1000)));
    assert!(r.contains(Vec2::new(4000, 3000)));
    assert!(!r.contains(Vec2::new(4001, 3000)));
    assert_eq!(r.translate(Vec2::new(-1000, 500)).min, Vec2::new(-1000, 1500));
    assert_eq!(r.align_pos(Vec2::new(500, 1000)), Vec2::new(2000, 3000));
    assert_eq!(r.align_pos(Vec2::new(0, 0)), Vec2::new(0, 1000));
    let p = Aabb2::point(Vec2::new(5, 6)).extend_symmetric(Vec2::new(2, 3));
    assert_eq!((p.min, p.max), (Vec2::new(3, 3), Vec2::new(7, 9)));
}

#[test]
fn center_rounds_toward_negative_infinity() {
    let r = Aabb2::from_corners(Vec2::new(-3, -4), Vec2::new(0, 1));
    assert_eq!(r.center(), Vec2::new(-2, -2));
    let wide = Aabb2::from_corners(Vec2::new(i64::MIN, 0), Vec2::new(i64::MAX, 0));
    assert_eq!(wide.center(), Vec2::new(-1, 0));
}

#[test]
fn rectangle_is_pushed_into_bounds() {
    let bounds = Aabb2::from_corners(Vec2::new(0, -10_000), Vec2::new(10_000, 0));
    let inside = Aabb2::from_corners(Vec2::new(1000, -2000), Vec2::new(2000, -1000));
    assert_eq!(inside.clamp_into(bounds), inside);
    let left = Aabb2::from_corners(Vec2::new(-500, -2000), Vec2::new(500, -1000));
    let pushed = left.clamp_into(bounds);
    assert_eq!((pushed.min, pushed.max), (Vec2::new(0, -2000), Vec2::new(1000, -1000)));
    let corner = Aabb2::from_corners(Vec2::new(9500, -500), Vec2::new(11_500, 1500));
    let pushed = corner.clamp_into(bounds);
    assert_eq!((pushed.min, pushed.max), (Vec2::new(8000, -2000), Vec2::new(10_000, 0)));
}

#[test]
fn rectangle_is_centered_without_changing_its_size() {
    let bounds = Aabb2::from_corners(Vec2::new(0, -10_000), Vec2::new(10_000, 0));
    let r = Aabb2::from_corners(Vec2::new(1000, -2000), Vec2::new(3000, -1000));
    let moved = r.center_into(Vec2::new(5000, -5000), bounds);
    assert_eq!((moved.min, moved.max), (Vec2::new(4000, -5500), Vec2::new(6000, -4500)));
    let far = r.center_into(Vec2::new(i64::MAX, i64::MAX), bounds);
    assert_eq!((far.min, far.max), (Vec2::new(8000, -1000), Vec2::new(10_000, 0)));
    let back = r.center_into(Vec2::new(i64::MIN, i64::MIN), bounds);
    assert_eq!((back.min, back.max), (Vec2::new(0, -10_000), Vec2::new(2000, -9000)));
}

#[test]
fn circles_overlap_when_centers_are_close() {
    let a = Collider::circle(Vec2::new(0, 0), 1000);
    let b = Collider::circle(Vec2::new(3000, 4000), 4000);
    assert!(a.check(&b));
    assert!(b.check(&a));
    let c = Collider::circle(Vec2::new(3000, 4000), 3999);
    assert!(!a.check(&c));
    let d = Collider::circle(Vec2::new(i64::MAX, i64::MAX), 5);
    let e = Collider::circle(Vec2::new(i64::MIN, i64::MIN), 5);
    assert!(!d.check(&e));
    assert!(d.check(&d));
    let negative = Collider::circle(Vec2::new(0, 0), -1);
    assert!(!negative.check(&negative));
}

#[test]
fn rectangles_are_tested_by_their_boxes() {
    let r = Collider::rectangle(Vec2::new(0, 0), 2000, 1000);
    assert_eq!(r.shape, Shape::Rectangle { width: 2000, height: 1000 });
    let aabb = r.compute_aabb();
    assert_eq!((aabb.min, aabb.max), (Vec2::new(-1000, -500), Vec2::new(1000, 500)));
    let near = Collider::circle(Vec2::new(1300, 900), 500);
    assert!(r.check(&near));
    assert!(near.check(&r));
    let far = Collider::circle(Vec2::new(1300, 900), 499);
    assert!(!r.check(&far));
    let touching = Collider::rectangle(Vec2::new(2000, 0), 2000, 1000);
    assert!(r.check(&touching));
    let apart = Collider::rectangle(Vec2::new(2001, 0), 2000, 1000);
    assert!(!r.check(&apart));
    let circle = Collider::circle(Vec2::new(10, 20), 5);
    let aabb = circle.compute_aabb();
    assert_eq!((aabb.min, aabb.max), (Vec2::new(5, 15), Vec2::new(15, 25)));
}

#[test]
fn integer_square_root() {
    assert_eq!(isqrt(0), 0);
    assert_eq!(isqrt(1), 1);
    assert_eq!(isqrt(15), 3);
    assert_eq!(isqrt(16), 4);
    assert_eq!(isqrt(17), 4);
    assert_eq!(isqrt(u128::MAX), u64::MAX);
    assert_eq!(chord(5, 3), 4);
    assert_eq!(chord(5, -3), 4);
    assert_eq!(chord(5, 5), 0);
    assert_eq!(chord(200, 0), 200);
}

#[test]
fn random_points_lie_in_their_disc() {
    for _ in 0..200 {
        let p = random_in_disc(Vec2::new(1000, -1000), 200);
        let dx = (p.x - 1000) as i128;
        let dy = (p.y + 1000) as i128;
        assert!(dx * dx + dy * dy <= 200 * 200);
    }
    assert_eq!(random_in_disc(Vec2::new(7, 8), 0), Vec2::new(7, 8));
}

#[test]
fn random_velocities_rise() {
    let mut seen_different = false;
    let first = random_upward(500);
    for _ in 0..200 {
        let v = random_upward(500);
        assert!(-250 <= v.x && v.x <= 250);
        assert!(v.y >= 433);
        let len_sq = v.x * v.x + v.y * v.y;
        assert!(len_sq <= 250_000);
        assert!((v.y + 1) * (v.y + 1) + v.x * v.x > 250_000);
        if v != first {
            seen_different = true;
        }
    }
    assert!(seen_different);
}
