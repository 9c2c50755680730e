//! A renderable object instance and the fixed-layout record that stands for
//! it in the per-instance GPU stream.

use vstd::prelude::*;

use crate::frac::{q_half, q_le, q_one, Frac};
use crate::math::{Color, Lerp, Point, Rect};
use crate::texture::Texture;
use crate::transform::Transform;

verus! {

/// One renderable object: a pose, lit and unlit colors, and lit and unlit
/// texture regions of the shared atlas.
#[derive(Clone, Copy, Debug, PartialEq, Eq, Structural)]
pub struct Instance {
    pub transform: Transform,
    pub color_lit: Color,
    pub color_unlit: Color,
    pub texture_lit: Texture,
    pub texture_unlit: Texture,
}

impl Instance {
    pub fn new(
        transform: Transform,
        color_lit: Color,
        color_unlit: Color,
        texture_lit: &Texture,
        texture_unlit: &Texture,
    ) -> (r: Instance)
        ensures
            r == (Instance {
                transform,
                color_lit,
                color_unlit,
                texture_lit: *texture_lit,
                texture_unlit: *texture_unlit,
            }),
    {
        Instance {
            transform,
            color_lit,
            color_unlit,
            texture_lit: *texture_lit,
            texture_unlit: *texture_unlit,
        }
    }

    /// An instance that looks the same lit and unlit.
    pub fn unlit(transform: Transform, color: Color, texture: &Texture) -> (r: Instance)
        ensures
            r == (Instance {
                transform,
                color_lit: color,
                color_unlit: color,
                texture_lit: *texture,
                texture_unlit: *texture,
            }),
    {
        Instance {
            transform,
            color_lit: color,
            color_unlit: color,
            texture_lit: *texture,
            texture_unlit: *texture,
        }
    }
}

impl Lerp for Instance {
    open spec fn lerp_ok(a: &Instance, b: &Instance, t: Frac) -> bool {
        &&& Transform::lerp_ok(&a.transform, &b.transform, t)
        &&& Color::lerp_ok(&a.color_lit, &b.color_lit, t)
        &&& Color::lerp_ok(&a.color_unlit, &b.color_unlit, t)
    }

    open spec fn lerp_spec(a: &Instance, b: &Instance, t: Frac) -> Instance {
        Instance {
            transform: Transform::lerp_spec(&a.transform, &b.transform, t),
            color_lit: Color::lerp_spec(&a.color_lit, &b.color_lit, t),
            color_unlit: Color::lerp_spec(&a.color_unlit, &b.color_unlit, t),
            texture_lit: if q_le(t@, q_half(q_one())) {
                a.texture_lit
            } else {
                b.texture_lit
            },
            texture_unlit: if q_le(t@, q_half(q_one())) {
                a.texture_unlit
            } else {
                b.texture_unlit
            },
        }
    }

    /// Pose and colors interpolate; the texture regions snap to `a`'s for
    /// `t <= 1/2` and to `b`'s beyond.
    fn lerp(a: &Instance, b: &Instance, t: Frac) -> (r: Instance) {
        let texture_lit;
        let texture_unlit;
        if t.le(Frac::new(1, 2)) {
            texture_lit = a.texture_lit;
            texture_unlit = a.texture_unlit;
        } else {
            texture_lit = b.texture_lit;
            texture_unlit = b.texture_unlit;
        }
        Instance {
            transform: Lerp::lerp(&a.transform, &b.transform, t),
            color_lit: Lerp::lerp(&a.color_lit, &b.color_lit, t),
            color_unlit: Lerp::lerp(&a.color_unlit, &b.color_unlit, t),
            texture_lit,
            texture_unlit,
        }
    }
}

/// The record passed to the shader for each instance. Purely a transfer
/// format: derived from an [`Instance`] just before upload, never stored.
#[derive(Clone, Copy, Debug, PartialEq, Eq, Structural)]
pub struct PerInstance {
    /// Translation in world space.
    pub i_translation: Point,
    /// `x` is the z-order, `y` the rotation around the origin in turns.
    pub i_z_theta: Point,
    /// Scaling of the object in world space.
    pub i_scale: Point,
    /// Color when within vision range.
    pub i_color_lit: Color,
    /// Color when outside vision range.
    pub i_color_unlit: Color,
    /// Atlas region when within vision range.
    pub i_texture_lit: Rect,
    /// Atlas region when outside vision range.
    pub i_texture_unlit: Rect,
}

/// The default record: mid z-order, no rotation, unit scale, white lit and
/// half-grey unlit color, empty texture regions.
pub open spec fn per_instance_default() -> PerInstance {
    let zero = Frac { num: 0, den: 1 };
    let half = Frac { num: 1, den: 2 };
    let one = Frac { num: 1, den: 1 };
    PerInstance {
        i_translation: Point { x: zero, y: zero },
        i_z_theta: Point { x: half, y: zero },
        i_scale: Point { x: one, y: one },
        i_color_lit: Color { r: one, g: one, b: one, a: one },
        i_color_unlit: Color { r: half, g: half, b: half, a: one },
        i_texture_lit: Rect {
            min: Point { x: zero, y: zero },
            max: Point { x: zero, y: zero },
        },
        i_texture_unlit: Rect {
            min: Point { x: zero, y: zero },
            max: Point { x: zero, y: zero },
        },
    }
}

impl Default for PerInstance {
    fn default() -> (r: PerInstance)
        ensures
            r == per_instance_default(),
    {
        let zero = Frac::zero();
        let half = Frac::new(1, 2);
        let one = Frac::one();
        PerInstance {
            i_translation: Point { x: zero, y: zero },
            i_z_theta: Point { x: half, y: zero },
            i_scale: Point { x: one, y: one },
            i_color_lit: Color { r: one, g: one, b: one, a: one },
            i_color_unlit: Color { r: half, g: half, b: half, a: one },
            i_texture_lit: Rect {
                min: Point { x: zero, y: zero },
                max: Point { x: zero, y: zero },
            },
            i_texture_unlit: Rect {
                min: Point { x: zero, y: zero },
                max: Point { x: zero, y: zero },
            },
        }
    }
}

/// The record derived from an instance: its pose fields copied over, the
/// z-order fixed at `1/2`, and the two texture regions flattened out.
pub open spec fn per_instance_of(instance: Instance) -> PerInstance {
    PerInstance {
        i_translation: instance.transform.translation,
        i_z_theta: Point { x: Frac { num: 1, den: 2 }, y: instance.transform.rotation },
        i_scale: instance.transform.scale,
        i_color_lit: instance.color_lit,
        i_color_unlit: instance.color_unlit,
        i_texture_lit: instance.texture_lit.area,
        i_texture_unlit: instance.texture_unlit.area,
    }
}

impl From<Instance> for PerInstance {
    fn from(instance: Instance) -> (r: PerInstance) {
        PerInstance {
            i_translation: instance.transform.translation,
            i_z_theta: Point { x: Frac::new(1, 2), y: instance.transform.rotation },
            i_scale: instance.transform.scale,
            i_color_lit: instance.color_lit,
            i_color_unlit: instance.color_unlit,
            i_texture_lit: instance.texture_lit.area,
            i_texture_unlit: instance.texture_unlit.area,
        }
    }
}

impl vstd::std_specs::convert::FromSpecImpl<Instance> for PerInstance {
    open spec fn obeys_from_spec() -> bool {
        true
    }

    open spec fn from_spec(instance: Instance) -> PerInstance {
        per_instance_of(instance)
    }
}

} // verus!
