use sprite_batch::frac::Frac;
use sprite_batch::math::{lerp_angle, short_angle_distance, wrap_turn, Boundable, Lerp, Point, Rect};
use sprite_batch::transform::Transform;

fn fr(num: i64, den: i64) -> Frac {
    Frac::new(num, den)
}

#[test]
fn frac_arithmetic_is_exact() {
    let a = fr(1, 3);
    let b = fr(1, 6);
    assert!(a.add(b).eqv(fr(1, 2)));
    assert!(a.sub(b).eqv(fr(1, 6)));
    assert!(a.mul(b).eqv(fr(1, 18)));
    assert!(a.div(b).eqv(fr(2, 1)));
    assert!(a.neg().eqv(fr(-1, 3)));
    assert!(fr(3, 4).half().eqv(fr(3, 8)));
    assert!(fr(1, 3).lt(fr(1, 2)));
    assert!(fr(2, 4).le(fr(1, 2)));
    assert!(fr(2, 4).eqv(fr(1, 2)));
    assert!(!fr(2, 4).eqv(fr(1, 3)));
}

#[test]
fn frac_lerp_exact_values() {
    // lerp(0, 10, 1/4) = 2.5
    let r = Lerp::lerp(&fr(0, 1), &fr(10, 1), fr(1, 4));
    assert!(r.eqv(fr(5, 2)));
    // endpoints
    assert!(Lerp::lerp(&fr(3, 7), &fr(9, 5), fr(0, 1)).eqv(fr(3, 7)));
    assert!(Lerp::lerp(&fr(3, 7), &fr(9, 5), fr(1, 1)).eqv(fr(9, 5)));
}

#[test]
fn wrap_turn_stays_in_one_turn() {
    // 0.9 + 0.3 turns wraps to 0.2 turns
    let sum = fr(9, 10).add(fr(3, 10));
    let w = wrap_turn(sum);
    assert!(w.eqv(fr(1, 5)));
    assert!(w.num >= 0 && w.num < w.den);
    // negative angles wrap correctly too: -0.25 -> 0.75
    let w2 = wrap_turn(fr(-1, 4));
    assert!(w2.eqv(fr(3, 4)));
    assert!(w2.num >= 0 && w2.num < w2.den);
}

#[test]
fn short_angle_distance_takes_short_way() {
    // from 0.1 to 0.9 of a turn, the short way is -0.2
    assert!(short_angle_distance(fr(1, 10), fr(9, 10)).eqv(fr(-1, 5)));
    // from 0.9 to 0.1, the short way is +0.2
    assert!(short_angle_distance(fr(9, 10), fr(1, 10)).eqv(fr(1, 5)));
    // half a turn stays half a turn
    assert!(short_angle_distance(fr(0, 1), fr(1, 2)).eqv(fr(1, 2)));
}

#[test]
fn lerp_angle_wraps_the_short_way() {
    // halfway between 1/20 and 19/20 of a turn is 0, not half a turn
    let r = lerp_angle(fr(1, 20), fr(19, 20), fr(1, 2));
    assert!(r.eqv(fr(0, 1)));
}

#[test]
fn rect_accessors_and_center() {
    let rect = Rect::new(
        Point::new(fr(1, 1), fr(2, 1)),
        Point::new(fr(5, 1), fr(8, 1)),
    );
    assert!(rect.width().eqv(fr(4, 1)));
    assert!(rect.height().eqv(fr(6, 1)));
    let c = rect.center();
    assert!(c.x.eqv(fr(3, 1)));
    assert!(c.y.eqv(fr(5, 1)));
    let s = rect.size();
    assert!(s.x.eqv(fr(4, 1)));
    assert!(s.y.eqv(fr(6, 1)));
    assert!(rect.min_x().eqv(fr(1, 1)));
    assert!(rect.max_y().eqv(fr(8, 1)));
    let b = rect.bounds();
    assert_eq!(b.len(), 2);
    assert!(b[0].x.eqv(fr(1, 1)));
    assert!(b[1].y.eqv(fr(8, 1)));
}

#[test]
fn rect_from_bounds_covers_all_points() {
    let points = vec![
        Point::new(fr(3, 1), fr(-1, 1)),
        Point::new(fr(-2, 1), fr(4, 1)),
        Point::new(fr(1, 1), fr(0, 1)),
    ];
    let rect = Rect::from_bounds(&points);
    assert!(rect.min_x().eqv(fr(-2, 1)));
    assert!(rect.min_y().eqv(fr(-1, 1)));
    assert!(rect.max_x().eqv(fr(3, 1)));
    assert!(rect.max_y().eqv(fr(4, 1)));
}

#[test]
fn rect_grow_to_fit_expands() {
    let mut rect = Rect::new(
        Point::new(fr(0, 1), fr(0, 1)),
        Point::new(fr(1, 1), fr(1, 1)),
    );
    rect.grow_to_fit(&Point::new(fr(2, 1), fr(-3, 1)));
    assert!(rect.max_x().eqv(fr(2, 1)));
    assert!(rect.min_y().eqv(fr(-3, 1)));
    assert!(rect.min_x().eqv(fr(0, 1)));
    assert!(rect.max_y().eqv(fr(1, 1)));
}

#[test]
fn transform_rotate_wraps() {
    let mut t = Transform::default();
    t.rotate(fr(3, 4));
    t.rotate(fr(3, 4));
    // 1.5 turns wraps to 0.5
    assert!(t.rotation.eqv(fr(1, 2)));
    assert!(t.rotation.num >= 0 && t.rotation.num < t.rotation.den);
    t.rotate(fr(-3, 4));
    // 0.5 - 0.75 wraps to 0.75
    assert!(t.rotation.eqv(fr(3, 4)));
}

#[test]
fn transform_mutators() {
    let mut t = Transform::default();
    t.set_position(Point::new(fr(2, 1), fr(3, 1)));
    t.translate(Point::new(fr(1, 2), fr(-1, 2)));
    assert!(t.translation.x.eqv(fr(5, 2)));
    assert!(t.translation.y.eqv(fr(5, 2)));
    t.set_scale(Point::new(fr(2, 1), fr(4, 1)));
    assert!(t.scale.x.eqv(fr(2, 1)));
    t.set_rotation(fr(1, 3));
    assert!(t.rotation.eqv(fr(1, 3)));
}

#[test]
fn transform_lerp_goes_the_short_way_and_stays_normalized() {
    let a = Transform::new(
        Point::new(fr(0, 1), fr(0, 1)),
        fr(1, 20),
        Point::new(fr(1, 1), fr(1, 1)),
    );
    let b = Transform::new(
        Point::new(fr(2, 1), fr(4, 1)),
        fr(19, 20),
        Point::new(fr(3, 1), fr(5, 1)),
    );
    let m = Lerp::lerp(&a, &b, fr(1, 2));
    assert!(m.translation.x.eqv(fr(1, 1)));
    assert!(m.translation.y.eqv(fr(2, 1)));
    assert!(m.scale.x.eqv(fr(2, 1)));
    assert!(m.scale.y.eqv(fr(3, 1)));
    // rotation interpolates through zero, not through half a turn
    assert!(m.rotation.eqv(fr(0, 1)));
    assert!(m.rotation.num >= 0 && m.rotation.num < m.rotation.den);
}
