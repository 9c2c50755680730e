use sprite_batch::frac::Frac;
use sprite_batch::instance::{Instance, PerInstance};
use sprite_batch::math::{Color, Point, Rect};
use sprite_batch::renderer::{
    default_batch_size, frame_plan_ready, plan_batches, plan_frame, quad_indices, quad_vertices,
};
use sprite_batch::scene::TestScene;
use sprite_batch::texture::{Texture, TextureCollection};
use sprite_batch::transform::Transform;

fn fr(num: i64, den: i64) -> Frac {
    Frac::new(num, den)
}

fn sample_instance(x: i64) -> Instance {
    let color = Color::new(fr(1, 1), fr(1, 2), fr(0, 1), fr(1, 1));
    let tex = Texture {
        area: Rect::new(Point::new(fr(0, 1), fr(0, 1)), Point::new(fr(1, 1), fr(1, 1))),
    };
    Instance::new(
        Transform::new(Point::new(fr(x, 1), fr(0, 1)), fr(0, 1), Point::new(fr(1, 1), fr(1, 1))),
        color,
        color,
        &tex,
        &tex,
    )
}

#[test]
fn batch_counts_are_ceiling_division() {
    let bs = 4;
    for (count, expected_batches) in [(0, 0), (1, 1), (3, 1), (4, 1), (5, 2)] {
        let instances: Vec<Instance> = (0..count).map(|i| sample_instance(i as i64)).collect();
        let batches = plan_batches(&instances, bs);
        assert_eq!(batches.len(), expected_batches);
        let total: usize = batches.iter().map(|b| b.len()).sum();
        assert_eq!(total, count);
        for (i, batch) in batches.iter().enumerate() {
            assert!(!batch.is_empty());
            assert!(batch.len() <= bs);
            if i + 1 < batches.len() {
                assert_eq!(batch.len(), bs);
            }
        }
    }
}

#[test]
fn batches_keep_instance_order_and_data() {
    let instances: Vec<Instance> = (0..5).map(|i| sample_instance(i as i64)).collect();
    let batches = plan_batches(&instances, 2);
    let mut seen = 0i64;
    for batch in &batches {
        for record in batch {
            assert!(record.i_translation.x.eqv(fr(seen, 1)));
            seen += 1;
        }
    }
    assert_eq!(seen, 5);
}

#[test]
fn per_instance_record_mirrors_the_instance() {
    let instance = sample_instance(3);
    let record = PerInstance::from(instance);
    assert!(record.i_translation.x.eqv(fr(3, 1)));
    assert!(record.i_z_theta.x.eqv(fr(1, 2)));
    assert!(record.i_z_theta.y.eqv(fr(0, 1)));
    assert!(record.i_scale.x.eqv(fr(1, 1)));
    assert!(record.i_color_lit.g.eqv(fr(1, 2)));
    assert!(record.i_texture_lit.max_x().eqv(fr(1, 1)));
}

#[test]
fn default_per_instance_record() {
    let record = PerInstance::default();
    assert!(record.i_z_theta.x.eqv(fr(1, 2)));
    assert!(record.i_scale.x.eqv(fr(1, 1)));
    assert!(record.i_color_unlit.r.eqv(fr(1, 2)));
    assert!(record.i_color_unlit.a.eqv(fr(1, 1)));
}

#[test]
fn quad_mesh_is_the_centered_unit_square() {
    let verts = quad_vertices();
    assert_eq!(verts.len(), 4);
    assert!(verts[0].position.x.eqv(fr(-1, 2)));
    assert!(verts[0].position.y.eqv(fr(1, 2)));
    assert!(verts[3].position.x.eqv(fr(1, 2)));
    assert!(verts[3].position.y.eqv(fr(-1, 2)));
    assert!(verts[0].tex_coords.y.eqv(fr(1, 1)));
    assert!(verts[1].tex_coords.y.eqv(fr(0, 1)));
    assert_eq!(quad_indices(), vec![0u16, 1, 2, 1, 2, 3]);
}

#[test]
fn default_batch_size_value() {
    assert_eq!(default_batch_size(), 1024);
}

#[test]
fn frame_plan_computes_uniforms_and_batches() {
    let collection = TextureCollection::new(Vec::new()).unwrap();
    let scene = TestScene {
        objects: (0..5).map(|i| sample_instance(i as i64)).collect(),
        view_rect: Rect::new(Point::new(fr(0, 1), fr(0, 1)), Point::new(fr(2, 1), fr(2, 1))),
        rotation_speeds: vec![fr(0, 0x8000); 5],
        view_origin: Point::new(fr(1, 1), fr(1, 1)),
        view_distance: fr(3, 1),
        texture_collection: collection,
        sharpness: fr(1, 1),
    };
    let plan = plan_frame(&scene, fr(2, 1), 2);
    // square rect on a double-wide viewport with preserved ratio:
    // scale (1/2, 1), translation at the center
    assert!(plan.uniforms.u_scale.x.eqv(fr(1, 2)));
    assert!(plan.uniforms.u_scale.y.eqv(fr(1, 1)));
    assert!(plan.uniforms.u_translation.x.eqv(fr(1, 1)));
    assert!(plan.uniforms.u_translation.y.eqv(fr(1, 1)));
    assert!(plan.uniforms.u_view_origin.x.eqv(fr(1, 1)));
    assert!(plan.uniforms.u_view_distance.eqv(fr(3, 1)));
    assert_eq!(plan.batches.len(), 3);
    let total: usize = plan.batches.iter().map(|b| b.len()).sum();
    assert_eq!(total, 5);
}

#[test]
fn frame_plan_readiness_tracks_the_view() {
    let good = Rect::new(Point::new(fr(0, 1), fr(0, 1)), Point::new(fr(2, 1), fr(2, 1)));
    assert!(frame_plan_ready(&good, fr(2, 1)));
    // a degenerate rectangle cannot be projected
    let flat = Rect::new(Point::new(fr(0, 1), fr(0, 1)), Point::new(fr(2, 1), fr(0, 1)));
    assert!(!frame_plan_ready(&flat, fr(2, 1)));
    let inverted = Rect::new(Point::new(fr(2, 1), fr(0, 1)), Point::new(fr(0, 1), fr(2, 1)));
    assert!(!frame_plan_ready(&inverted, fr(2, 1)));
    // a non-positive ratio is meaningless
    assert!(!frame_plan_ready(&good, fr(0, 1)));
}
