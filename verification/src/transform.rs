//! The pose of a drawable object.

use vstd::prelude::*;

use crate::frac::{frac_of, q_add, q_in_range, q_one, q_wf, q_zero, Frac, Q};
use crate::math::{
    lemma_wrap_turn_congruent, lerp_angle, lerp_angle_in_range, q_angle_wf, q_congruent_mod_one,
    q_lerp_angle, q_wrap_turn, wrap_turn, Lerp, Point,
};

verus! {

/// Translation, rotation and scale of a drawable object.
///
/// The rotation is measured in turns and kept normalized in `[0, 1)`: every
/// mutator wraps or demands an already-normalized angle, see [`Transform::wf`].
#[derive(Clone, Copy, Debug, PartialEq, Eq, Structural)]
pub struct Transform {
    /// Position of the object in world space.
    pub translation: Point,
    /// Rotation around the object's origin, in turns, normalized to `[0, 1)`.
    pub rotation: Frac,
    /// Scaling of the object in world space.
    pub scale: Point,
}

impl Transform {
    /// The invariant: components representable and the rotation normalized.
    pub open spec fn wf(self) -> bool {
        self.translation.wf() && self.scale.wf() && q_angle_wf(self.rotation@)
    }

    pub fn new(translation: Point, rotation: Frac, scale: Point) -> (r: Transform)
        requires
            q_angle_wf(rotation@),
        ensures
            r == (Transform { translation, rotation, scale }),
    {
        Transform { translation, rotation, scale }
    }

    /// Add `angle` turns to the rotation and wrap back into `[0, 1)`;
    /// negative deltas wrap correctly as well.
    pub fn rotate(&mut self, angle: Frac)
        requires
            old(self).wf(),
            angle.wf(),
            q_in_range(q_add(old(self).rotation@, angle@)),
        ensures
            final(self).rotation@ == q_wrap_turn(q_add(old(self).rotation@, angle@)),
            final(self).translation == old(self).translation,
            final(self).scale == old(self).scale,
            final(self).wf(),
    {
        self.rotation = wrap_turn(self.rotation.add(angle));
    }

    /// Overwrite the rotation; the caller must supply a normalized angle.
    pub fn set_rotation(&mut self, angle: Frac)
        requires
            q_angle_wf(angle@),
        ensures
            *final(self) == (Transform { rotation: angle, ..*old(self) }),
    {
        self.rotation = angle;
    }

    /// Move the object by `delta`, componentwise.
    pub fn translate(&mut self, delta: Point)
        requires
            old(self).wf(),
            delta.wf(),
            q_in_range(q_add(old(self).translation@.x, delta@.x)),
            q_in_range(q_add(old(self).translation@.y, delta@.y)),
        ensures
            final(self).translation@.x == q_add(old(self).translation@.x, delta@.x),
            final(self).translation@.y == q_add(old(self).translation@.y, delta@.y),
            final(self).rotation == old(self).rotation,
            final(self).scale == old(self).scale,
            final(self).wf(),
    {
        self.translation = self.translation.add(delta);
    }

    pub fn set_position(&mut self, position: Point)
        ensures
            *final(self) == (Transform { translation: position, ..*old(self) }),
    {
        self.translation = position;
    }

    pub fn set_scale(&mut self, scale: Point)
        ensures
            *final(self) == (Transform { scale, ..*old(self) }),
    {
        self.scale = scale;
    }
}

impl Default for Transform {
    /// The identity pose: no translation, no rotation, unit scale.
    fn default() -> (r: Transform)
        ensures
            r.translation@.x == q_zero(),
            r.translation@.y == q_zero(),
            r.rotation@ == q_zero(),
            r.scale@.x == q_one(),
            r.scale@.y == q_one(),
            r.wf(),
    {
        Transform {
            translation: Point::origin(),
            rotation: Frac::zero(),
            scale: Point { x: Frac::one(), y: Frac::one() },
        }
    }
}

impl Lerp for Transform {
    open spec fn lerp_ok(a: &Transform, b: &Transform, t: Frac) -> bool {
        &&& a.wf()
        &&& b.wf()
        &&& Point::lerp_ok(&a.translation, &b.translation, t)
        &&& Point::lerp_ok(&a.scale, &b.scale, t)
        &&& lerp_angle_in_range(a.rotation@, b.rotation@, t@)
    }

    open spec fn lerp_spec(a: &Transform, b: &Transform, t: Frac) -> Transform {
        Transform {
            translation: Point::lerp_spec(&a.translation, &b.translation, t),
            rotation: frac_of(q_wrap_turn(q_lerp_angle(a.rotation@, b.rotation@, t@))),
            scale: Point::lerp_spec(&a.scale, &b.scale, t),
        }
    }

    /// Translation and scale interpolate componentwise; the rotation takes
    /// the shortest angular path and is wrapped back into `[0, 1)` so the
    /// normalization invariant survives interpolation.
    fn lerp(a: &Transform, b: &Transform, t: Frac) -> (r: Transform) {
        Transform {
            translation: Lerp::lerp(&a.translation, &b.translation, t),
            rotation: wrap_turn(lerp_angle(a.rotation, b.rotation, t)),
            scale: Lerp::lerp(&a.scale, &b.scale, t),
        }
    }
}

/// Law: for any normalized rotation and any delta, the rotation after
/// `rotate` lies in `[0, 1)` turns and is congruent to `rotation + delta`
/// modulo one turn.
pub proof fn lemma_rotate_wraps(rotation: Q, delta: Q)
    requires
        q_wf(rotation),
        q_wf(delta),
    ensures
        0 <= q_wrap_turn(q_add(rotation, delta)).num < q_wrap_turn(q_add(rotation, delta)).den,
        q_congruent_mod_one(q_wrap_turn(q_add(rotation, delta)), q_add(rotation, delta)),
{
    let sum = q_add(rotation, delta);
    assert(sum.den > 0) by (nonlinear_arith)
        requires
            rotation.den > 0,
            delta.den > 0,
            sum.den == rotation.den * delta.den;
    lemma_wrap_turn_congruent(sum);
}

} // verus!
