use sprite_batch::frac::Frac;
use sprite_batch::input::WheelAction;
use sprite_batch::scene::{isqrt128, isqrt64, Scene, TestScene, ANGLE_SCALE, SPEED_SCALE};
use sprite_batch::texture::TextureCollection;

fn fr(num: i64, den: i64) -> Frac {
    Frac::new(num, den)
}

fn two_texture_collection() -> TextureCollection {
    TextureCollection::new(vec![
        (String::from("lit.png"), image::DynamicImage::new_rgba8(4, 4)),
        (String::from("dark.png"), image::DynamicImage::new_rgba8(4, 4)),
    ])
    .unwrap()
}

#[test]
fn generate_populates_the_grid() {
    let scene = TestScene::generate(
        3,
        2,
        two_texture_collection(),
        String::from("lit.png"),
        String::from("dark.png"),
    );
    assert_eq!(scene.objects.len(), 6);
    assert_eq!(scene.rotation_speeds.len(), 6);
    // objects are pushed column by column: index k sits at cell (k/rows, k%rows)
    let expect = [(0, 0), (0, 1), (1, 0), (1, 1), (2, 0), (2, 1)];
    for (k, (cx, cy)) in expect.iter().enumerate() {
        let t = &scene.objects[k].transform;
        assert!(t.translation.x.eqv(fr(2 * cx + 1, 2)));
        assert!(t.translation.y.eqv(fr(2 * cy + 1, 2)));
        assert!(t.scale.x.eqv(fr(1, 1)));
        // rotations are random but normalized to the rotation grid
        assert!(t.rotation.num >= 0 && t.rotation.num < t.rotation.den);
        assert_eq!(t.rotation.den, ANGLE_SCALE);
        assert!(scene.objects[k].color_lit.a.eqv(fr(1, 1)));
        // random colors land in their documented ranges
        let lit = &scene.objects[k].color_lit;
        for c in [lit.r, lit.g, lit.b] {
            assert!(c.num >= 0 && c.num < c.den);
        }
        let unlit = &scene.objects[k].color_unlit;
        for c in [unlit.r, unlit.g, unlit.b] {
            assert!(c.num >= 0 && 2 * c.num < c.den);
        }
    }
    for speed in &scene.rotation_speeds {
        assert_eq!(speed.den, SPEED_SCALE);
        assert!(speed.num >= -0x4000 && speed.num < 0x4000);
    }
    // the view rectangle covers the grid
    assert!(scene.view_rect.min_x().eqv(fr(0, 1)));
    assert!(scene.view_rect.max_x().eqv(fr(3, 1)));
    assert!(scene.view_rect.max_y().eqv(fr(2, 1)));
    // default view distance is the fourth root of the count on a 1/65536
    // grid: d/65536 with d^4 <= count * 2^64 < (d+1)^4
    assert_eq!(scene.view_distance.den, 65536);
    let d = scene.view_distance.num as u128;
    let scaled = 6u128 << 64;
    assert!(d.pow(4) <= scaled && (d + 1).pow(4) > scaled);
    assert!(scene.sharpness.eqv(fr(1, 1)));
    // the scene exposes itself through the Scene interface
    assert_eq!(scene.object_instances().len(), 6);
    assert!(scene.preserve_ratio());
}

#[test]
fn generated_textures_come_from_the_collection() {
    let collection = two_texture_collection();
    let lit = collection.get(&String::from("lit.png")).unwrap();
    let unlit = collection.get(&String::from("dark.png")).unwrap();
    let scene = TestScene::generate(
        2,
        2,
        collection,
        String::from("lit.png"),
        String::from("dark.png"),
    );
    for obj in &scene.objects {
        assert_eq!(obj.texture_lit, lit);
        assert_eq!(obj.texture_unlit, unlit);
    }
}

#[test]
fn update_advances_rotations_by_speed_times_elapsed() {
    let mut scene = TestScene::generate(
        1,
        1,
        two_texture_collection(),
        String::from("lit.png"),
        String::from("dark.png"),
    );
    // pin down the starting state
    scene.objects[0].transform.set_rotation(Frac::new(0, ANGLE_SCALE));
    scene.rotation_speeds[0] = Frac::new(SPEED_SCALE / 4, SPEED_SCALE);
    // one second at a quarter turn per second
    scene.update(Frac::new(1, 1));
    assert!(scene.objects[0].transform.rotation.eqv(fr(1, 4)));
    // three more seconds wrap back to zero
    scene.update(Frac::new(3, 1));
    assert!(scene.objects[0].transform.rotation.eqv(fr(0, 1)));
}

#[test]
fn update_quantizes_to_the_rotation_grid() {
    let mut scene = TestScene::generate(
        1,
        1,
        two_texture_collection(),
        String::from("lit.png"),
        String::from("dark.png"),
    );
    scene.objects[0].transform.set_rotation(Frac::new(0, ANGLE_SCALE));
    // one third of a turn per second is not on the speed grid; use 1/3 s at
    // a speed on the grid instead: the result rounds down to the grid
    scene.rotation_speeds[0] = Frac::new(SPEED_SCALE / 2 - 1, SPEED_SCALE);
    scene.update(Frac::new(1, 3));
    let rot = scene.objects[0].transform.rotation;
    assert_eq!(rot.den, ANGLE_SCALE);
    // exact value is (0x4000 - 1) / (3 * 0x8000); the stored rotation is the
    // largest grid multiple not above it
    let exact_num = ((SPEED_SCALE / 2 - 1) as i128) * (ANGLE_SCALE as i128);
    let exact_den = (3 * SPEED_SCALE) as i128;
    let expected = (exact_num / exact_den) as i64;
    assert_eq!(rot.num, expected);
}

#[test]
fn wheel_actions_scale_distance_and_sharpness() {
    let mut scene = TestScene::generate(
        2,
        2,
        two_texture_collection(),
        String::from("lit.png"),
        String::from("dark.png"),
    );
    scene.view_distance = fr(2, 1);
    scene.sharpness = fr(1, 1);
    // delta 8 doubles: 1 + 8/8 = 2
    scene.apply_wheel_action(WheelAction::ChangeViewSize, fr(8, 1));
    assert!(scene.view_distance.eqv(fr(4, 1)));
    assert!(scene.sharpness.eqv(fr(1, 1)));
    scene.apply_wheel_action(WheelAction::ChangeViewSharpness, fr(-4, 1));
    assert!(scene.sharpness.eqv(fr(1, 2)));
    let before = scene.view_distance;
    scene.apply_wheel_action(WheelAction::Nothing, fr(8, 1));
    scene.apply_wheel_action(WheelAction::ChangeSceneSize, fr(8, 1));
    assert!(scene.view_distance.eqv(before));
}

#[test]
fn isqrt_exact_values() {
    assert_eq!(isqrt64(0), 0);
    assert_eq!(isqrt64(1), 1);
    assert_eq!(isqrt64(15), 3);
    assert_eq!(isqrt64(16), 4);
    assert_eq!(isqrt64(1_000_000), 1000);
    assert_eq!(isqrt64(u64::MAX), 0xffff_ffff);
    assert_eq!(isqrt128(0), 0);
    assert_eq!(isqrt128(1u128 << 68), 1u128 << 34);
    assert_eq!(isqrt128((1u128 << 68) - 1), (1u128 << 34) - 1);
    assert_eq!(isqrt128(u128::MAX), 0xffff_ffff_ffff_ffff);
}

#[test]
fn view_distance_is_exact_on_fourth_powers() {
    // 4 x 4 = 16 objects: the fourth root is exactly 2
    let scene = TestScene::generate(
        4,
        4,
        two_texture_collection(),
        String::from("lit.png"),
        String::from("dark.png"),
    );
    assert_eq!(scene.view_distance.den, 65536);
    assert!(scene.view_distance.eqv(fr(2, 1)));
    // 1 x 1: the fourth root is exactly 1
    let scene = TestScene::generate(
        1,
        1,
        two_texture_collection(),
        String::from("lit.png"),
        String::from("dark.png"),
    );
    assert!(scene.view_distance.eqv(fr(1, 1)));
}

#[test]
fn free_texture_collection_returns_the_atlas() {
    let scene = TestScene::generate(
        1,
        1,
        two_texture_collection(),
        String::from("lit.png"),
        String::from("dark.png"),
    );
    let collection = scene.free_texture_collection();
    assert!(collection.get(&String::from("lit.png")).is_some());
}
