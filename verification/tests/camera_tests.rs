use sprite_batch::camera::{
    clip_to_screen, projection_scale, screen_to_world, screen_to_world_ready, world_to_clip,
};
use sprite_batch::frac::Frac;
use sprite_batch::math::{Point, Rect};

fn fr(num: i64, den: i64) -> Frac {
    Frac::new(num, den)
}

fn rect(min_x: i64, min_y: i64, max_x: i64, max_y: i64) -> Rect {
    Rect::new(
        Point::new(fr(min_x, 1), fr(min_y, 1)),
        Point::new(fr(max_x, 1), fr(max_y, 1)),
    )
}

#[test]
fn preserve_ratio_scale_on_wide_viewport() {
    // square view rectangle of side 2 on a viewport twice as wide as tall:
    // the vertical axis drives, horizontal scale 1/2, vertical scale 1
    let view = rect(0, 0, 2, 2);
    let scale = projection_scale(&view, fr(2, 1), true);
    assert!(scale.x.eqv(fr(1, 2)));
    assert!(scale.y.eqv(fr(1, 1)));
    // vertical = horizontal * ratio
    assert!(scale.y.eqv(scale.x.mul(fr(2, 1))));
}

#[test]
fn plain_scale_ignores_ratio() {
    let view = rect(0, 0, 4, 2);
    let scale = projection_scale(&view, fr(2, 1), false);
    assert!(scale.x.eqv(fr(1, 2)));
    assert!(scale.y.eqv(fr(1, 1)));
}

#[test]
fn preserve_ratio_never_crops_corners() {
    // all four corners of the view rectangle stay inside [-1,1] x [-1,1]
    let view = rect(-3, 1, 5, 3);
    let one = fr(1, 1);
    let minus_one = fr(-1, 1);
    for corner in [
        Point::new(fr(-3, 1), fr(1, 1)),
        Point::new(fr(-3, 1), fr(3, 1)),
        Point::new(fr(5, 1), fr(1, 1)),
        Point::new(fr(5, 1), fr(3, 1)),
    ] {
        let clip = world_to_clip(corner, &view, fr(2, 1), true);
        assert!(minus_one.le(clip.x) && clip.x.le(one));
        assert!(minus_one.le(clip.y) && clip.y.le(one));
    }
}

#[test]
fn screen_to_world_anchors_at_min_corner() {
    // without ratio preservation, screen (0, 1) is the rectangle's minimum
    // corner and screen (1, 0) its maximum corner
    let view = rect(2, 3, 6, 5);
    let ratio = fr(2, 1);
    let bottom_left = screen_to_world(Point::new(fr(0, 1), fr(1, 1)), &view, ratio, false);
    assert!(bottom_left.x.eqv(fr(2, 1)));
    assert!(bottom_left.y.eqv(fr(3, 1)));
    let top_right = screen_to_world(Point::new(fr(1, 1), fr(0, 1)), &view, ratio, false);
    assert!(top_right.x.eqv(fr(6, 1)));
    assert!(top_right.y.eqv(fr(5, 1)));
}

#[test]
fn round_trip_reproduces_points_exactly() {
    // project to clip space, flip into screen space, map back: exact
    let view = rect(2, 3, 6, 5);
    let ratio = fr(7, 5);
    let p = Point::new(fr(7, 2), fr(19, 5));
    let clip = world_to_clip(p, &view, ratio, false);
    let screen = clip_to_screen(clip);
    let back = screen_to_world(screen, &view, ratio, false);
    assert!(back.x.eqv(p.x));
    assert!(back.y.eqv(p.y));
}

#[test]
fn round_trip_with_matching_aspect_and_preserved_ratio() {
    // width 4, height 2, viewport ratio 2: preserving the ratio letterboxes
    // nothing, so the round trip is exact here as well
    let view = rect(0, 0, 4, 2);
    let ratio = fr(2, 1);
    let p = Point::new(fr(1, 3), fr(5, 4));
    let clip = world_to_clip(p, &view, ratio, true);
    let screen = clip_to_screen(clip);
    let back = screen_to_world(screen, &view, ratio, true);
    assert!(back.x.eqv(p.x));
    assert!(back.y.eqv(p.y));
}

#[test]
fn clip_to_screen_flips_vertically() {
    // clip (0,0) is screen (1/2, 1/2); clip top (y=1) is screen top (y=0)
    let center = clip_to_screen(Point::new(fr(0, 1), fr(0, 1)));
    assert!(center.x.eqv(fr(1, 2)));
    assert!(center.y.eqv(fr(1, 2)));
    let top = clip_to_screen(Point::new(fr(0, 1), fr(1, 1)));
    assert!(top.y.eqv(fr(0, 1)));
}

#[test]
fn screen_to_world_readiness_tracks_the_view() {
    let screen = Point::new(fr(1, 2), fr(1, 2));
    assert!(screen_to_world_ready(screen, &rect(0, 0, 2, 2), fr(2, 1), true));
    // a degenerate rectangle cannot be inverted
    assert!(!screen_to_world_ready(screen, &rect(0, 0, 0, 2), fr(2, 1), true));
    assert!(!screen_to_world_ready(screen, &rect(0, 0, 2, 0), fr(2, 1), false));
    // a non-positive ratio is meaningless
    assert!(!screen_to_world_ready(screen, &rect(0, 0, 2, 2), fr(-1, 1), true));
}
