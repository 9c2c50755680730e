//! Scenes: what the renderer draws.
//!
//! [`Scene`] is the capability set the renderer needs; [`TestScene`] is a
//! reference implementation that populates a grid of instances with random
//! rotations and colors and spins each instance at its own angular velocity.
//!
//! Rotations advance on a fixed grid of `1 / ANGLE_SCALE` turns: each update
//! rotates exactly and then snaps down to the grid, so denominators stay
//! bounded over arbitrarily many frames.

use vstd::arithmetic::div_mod::{lemma_fundamental_div_mod, lemma_fundamental_div_mod_converse};
use vstd::prelude::*;

use crate::frac::{frac_of, q_add, q_div, q_in_range, q_int, q_mul, q_one, q_zero, Frac, Q};
use crate::input::WheelAction;
use crate::instance::Instance;
use crate::math::{q_angle_wf, q_wrap_turn, wrap_turn, Color, Point, Rect};
use crate::texture::{TextureCollection, TextureID};
use crate::transform::Transform;

verus! {

/// A scene the renderer can draw.
pub trait Scene {
    /// The objects of the scene, as a mathematical sequence.
    spec fn instances_spec(&self) -> Seq<Instance>;

    /// The view rectangle, as a value.
    spec fn view_rect_spec(&self) -> Rect;

    /// Whether the aspect ratio is preserved, as a value.
    spec fn preserve_ratio_spec(&self) -> bool;

    /// The view origin, as a value.
    spec fn view_origin_spec(&self) -> Point;

    /// The view distance, as a value.
    spec fn view_distance_spec(&self) -> Frac;

    /// The view sharpness, as a value.
    spec fn view_sharpness_spec(&self) -> Frac;

    /// All objects in the scene, in draw order.
    fn object_instances(&self) -> (r: &Vec<Instance>)
        ensures
            r@ == self.instances_spec(),
    ;

    /// The minimal world-space rectangle the camera must show.
    fn view_rect(&self) -> (r: Rect)
        ensures
            r == self.view_rect_spec(),
    ;

    /// Should the world-space aspect ratio be preserved? The actual visible
    /// rectangle may then be larger than the view rectangle (letterboxing).
    fn preserve_ratio(&self) -> (r: bool)
        ensures
            r == self.preserve_ratio_spec(),
    ;

    /// Origin of the looker object.
    fn view_origin(&self) -> (r: Point)
        ensures
            r == self.view_origin_spec(),
    ;

    /// Visibility distance from the view origin.
    fn view_distance(&self) -> (r: Frac)
        ensures
            r == self.view_distance_spec(),
    ;

    /// Sharpness of the visibility falloff.
    fn view_sharpness(&self) -> (r: Frac)
        ensures
            r == self.view_sharpness_spec(),
    ;

    /// The texture collection whose atlas the instances reference.
    fn texture(&self) -> &TextureCollection;
}

/// Rotations are kept on a grid of `1 / ANGLE_SCALE` turns.
pub const ANGLE_SCALE: i64 = 0x4000_0000;

/// Rotation speeds are fractions over this denominator.
pub const SPEED_SCALE: i64 = 0x8000;

/// Relies on `rand::random_range` over `0..n`: some value below `n`. The
/// result comes from a thread-local generator, so nothing more can be
/// promised of it.
#[verifier::external_body]
fn random_below(n: u32) -> (r: u32)
    requires
        n >= 1,
    ensures
        r < n,
{
    rand::random_range(0..n)
}

/// Integer square root: the largest `r` whose square is at most `n`.
pub fn isqrt128(n: u128) -> (r: u128)
    ensures
        (r as int) * (r as int) <= n as int,
        ((r as int) + 1) * ((r as int) + 1) > n as int,
        r <= 0xffff_ffff_ffff_ffff,
{
    let mut lo: u128 = 0;
    let mut hi: u128 = 0x1_0000_0000_0000_0000;
    while lo + 1 < hi
        invariant
            0 <= lo < hi <= 0x1_0000_0000_0000_0000,
            (lo as int) * (lo as int) <= n as int,
            (hi as int) * (hi as int) > n as int,
        decreases hi - lo,
    {
        let mid = lo + (hi - lo) / 2;
        proof {
            assert((mid as int) * (mid as int) < 0x1_0000_0000_0000_0000_0000_0000_0000_0000) by (
            nonlinear_arith)
                requires
                    0 <= mid <= 0xffff_ffff_ffff_ffff;
        }
        let sq = mid * mid;
        if sq <= n {
            lo = mid;
        } else {
            hi = mid;
        }
    }
    lo
}

/// Integer square root: the largest `r` whose square is at most `n`.
pub fn isqrt64(n: u64) -> (r: u64)
    ensures
        (r as int) * (r as int) <= n as int,
        ((r as int) + 1) * ((r as int) + 1) > n as int,
        r <= 0xffff_ffff,
{
    let wide = isqrt128(n as u128);
    proof {
        assert(wide <= 0xffff_ffff) by (nonlinear_arith)
            requires
                (wide as int) * (wide as int) <= n as int,
                n <= 0xffff_ffff_ffff_ffff,
                wide >= 0;
    }
    wide as u64
}

/// A random color component drawn in `[0, 1)`.
pub open spec fn color_in_unit_range(c: Q) -> bool {
    0 <= c.num < c.den
}

/// A random color component drawn in `[0, 1/2)`.
pub open spec fn color_in_half_range(c: Q) -> bool {
    0 <= c.num && 2 * c.num < c.den
}

/// The rotation snapped down to the fixed rotation grid.
pub open spec fn q_quantize(a: Q) -> Q {
    Q { num: (a.num * (ANGLE_SCALE as int)) / a.den, den: ANGLE_SCALE as int }
}

/// Snap a normalized rotation to the largest grid multiple not above it.
pub fn quantize_turn(a: Frac) -> (r: Frac)
    requires
        q_angle_wf(a@),
    ensures
        r@ == q_quantize(a@),
        q_angle_wf(r@),
        r@.den == ANGLE_SCALE as int,
{
    proof {
        assert((a@.num * (ANGLE_SCALE as int)) < 0x4000_0000_0000_0000_0000_0000) by (
        nonlinear_arith)
            requires
                0 <= a@.num < 0x8000_0000_0000_0000,
    ;
    }
    let num128 = (a.num as i128) * (ANGLE_SCALE as i128);
    let q = num128.checked_div_euclid(a.den as i128).unwrap();
    proof {
        lemma_fundamental_div_mod(a@.num * (ANGLE_SCALE as int), a@.den);
        vstd::arithmetic::div_mod::lemma_mod_bound(a@.num * (ANGLE_SCALE as int), a@.den);
        let qq = (a@.num * (ANGLE_SCALE as int)) / a@.den;
        let rr = (a@.num * (ANGLE_SCALE as int)) % a@.den;
        assert(0 <= qq < ANGLE_SCALE as int) by (nonlinear_arith)
            requires
                a@.num * (ANGLE_SCALE as int) == a@.den * qq + rr,
                0 <= rr < a@.den,
                0 <= a@.num < a@.den,
                ANGLE_SCALE as int == 0x4000_0000;
    }
    Frac { num: q as i64, den: ANGLE_SCALE }
}

/// A scalar snapped down to the 1/65536 grid.
pub open spec fn q_snap(a: Q) -> Q {
    Q { num: (a.num * 65536) / a.den, den: 65536 }
}

/// A scalar the wheel can scale: on the 1/65536 grid (or coarser) and
/// bounded, so that one wheel step stays representable.
pub open spec fn wheel_scalable(a: Q) -> bool {
    0 < a.den <= 65536 && -0x40_0000_0000 <= a.num <= 0x40_0000_0000
}

/// The scale factor a wheel movement applies: `1 + delta / 8`.
pub open spec fn wheel_factor(delta: Q) -> Q {
    q_add(q_one(), q_div(delta, q_int(8)))
}

/// Snap a scalar to the largest 1/65536-grid value not above it.
fn snap_scalar(a: Frac) -> (r: Frac)
    requires
        a.wf(),
        -0x7fff_ffff_ffff_ffff <= (a@.num * 65536) / a@.den <= 0x7fff_ffff_ffff_ffff,
    ensures
        r@ == q_snap(a@),
        r.wf(),
{
    proof {
        assert(-0x8000_0000_0000_0000_0000 <= a@.num * 65536 <= 0x8000_0000_0000_0000_0000) by (
        nonlinear_arith)
            requires
                -0x8000_0000_0000_0000 <= a@.num <= 0x8000_0000_0000_0000;
    }
    let q = ((a.num as i128) * 65536).checked_div_euclid(a.den as i128).unwrap();
    Frac { num: q as i64, den: 65536 }
}

/// A basic scene for exercising the renderer: a grid of spinning squares.
pub struct TestScene {
    pub objects: Vec<Instance>,
    pub view_rect: Rect,
    /// Angular velocity of each object, in turns per second.
    pub rotation_speeds: Vec<Frac>,
    pub view_origin: Point,
    pub view_distance: Frac,
    pub texture_collection: TextureCollection,
    pub sharpness: Frac,
}

impl TestScene {
    /// The invariant: every rotation sits on the rotation grid, every speed
    /// on the speed grid within half a turn per second, and all the plain
    /// values are representable.
    pub open spec fn wf(self) -> bool {
        &&& self.objects@.len() == self.rotation_speeds@.len()
        &&& forall|i: int|
            0 <= i < self.objects@.len() ==> {
                let t = (#[trigger] self.objects@[i]).transform;
                t.wf() && t.rotation@.den == ANGLE_SCALE as int
            }
        &&& forall|i: int|
            0 <= i < self.rotation_speeds@.len() ==> {
                let s = #[trigger] self.rotation_speeds@[i];
                s@.den == SPEED_SCALE as int && -0x4000 <= s@.num < 0x4000
            }
        &&& self.view_rect.wf()
        &&& self.view_origin.wf()
        &&& self.view_distance.wf()
        &&& self.sharpness.wf()
    }
}

impl Scene for TestScene {
    open spec fn instances_spec(&self) -> Seq<Instance> {
        self.objects@
    }

    open spec fn view_rect_spec(&self) -> Rect {
        self.view_rect
    }

    open spec fn preserve_ratio_spec(&self) -> bool {
        true
    }

    open spec fn view_origin_spec(&self) -> Point {
        self.view_origin
    }

    open spec fn view_distance_spec(&self) -> Frac {
        self.view_distance
    }

    open spec fn view_sharpness_spec(&self) -> Frac {
        self.sharpness
    }

    fn object_instances(&self) -> (r: &Vec<Instance>) {
        &self.objects
    }

    fn view_rect(&self) -> (r: Rect) {
        self.view_rect
    }

    fn preserve_ratio(&self) -> (r: bool) {
        true
    }

    fn view_origin(&self) -> (r: Point) {
        self.view_origin
    }

    fn view_distance(&self) -> (r: Frac) {
        self.view_distance
    }

    fn view_sharpness(&self) -> (r: Frac) {
        self.sharpness
    }

    fn texture(&self) -> &TextureCollection {
        &self.texture_collection
    }
}

impl TestScene {
    /// Populate a `columns x rows` grid of unit squares, each centered on
    /// its cell, with a random initial rotation, random colors, and a random
    /// angular velocity in `[-1/2, 1/2)` turns per second. The view
    /// rectangle covers the grid; the default view distance is the fourth
    /// root of the object count.
    pub fn generate(
        columns: u32,
        rows: u32,
        texture_collection: TextureCollection,
        lit_texture: TextureID,
        unlit_texture: TextureID,
    ) -> (r: TestScene)
        requires
            texture_collection.map().contains_key(lit_texture@),
            texture_collection.map().contains_key(unlit_texture@),
            columns as int * rows as int <= usize::MAX,
        ensures
            r.wf(),
            r.objects@.len() == columns as int * rows as int,
            r.rotation_speeds@.len() == columns as int * rows as int,
            rows >= 1 ==> forall|k: int|
                0 <= k < r.objects@.len() ==> {
                    let obj = #[trigger] r.objects@[k];
                    &&& obj.transform.translation@.x == (Q {
                        num: 2 * (k / (rows as int)) + 1,
                        den: 2,
                    })
                    &&& obj.transform.translation@.y == (Q {
                        num: 2 * (k % (rows as int)) + 1,
                        den: 2,
                    })
                    &&& obj.transform.scale@.x == q_one()
                    &&& obj.transform.scale@.y == q_one()
                    &&& obj.color_lit.a@ == q_one()
                    &&& color_in_unit_range(obj.color_lit.r@)
                    &&& color_in_unit_range(obj.color_lit.g@)
                    &&& color_in_unit_range(obj.color_lit.b@)
                    &&& color_in_unit_range(obj.color_unlit.a@)
                    &&& color_in_half_range(obj.color_unlit.r@)
                    &&& color_in_half_range(obj.color_unlit.g@)
                    &&& color_in_half_range(obj.color_unlit.b@)
                    &&& obj.texture_lit == texture_collection.map()[lit_texture@]
                    &&& obj.texture_unlit == texture_collection.map()[unlit_texture@]
                },
            r.view_rect.min@.x == q_zero(),
            r.view_rect.min@.y == q_zero(),
            r.view_rect.max@.x == q_int(columns as int),
            r.view_rect.max@.y == q_int(rows as int),
            r.view_origin@.x == q_zero(),
            r.view_origin@.y == q_zero(),
            r.sharpness@ == q_one(),
            r.view_distance@.den == 65536,
            ({
                let d = r.view_distance@.num;
                let n = columns as int * rows as int;
                d >= 0 && d * d * d * d <= n * 0x1_0000_0000_0000_0000 && (d + 1) * (d + 1) * (d
                    + 1) * (d + 1) > n * 0x1_0000_0000_0000_0000
            }),
            r.texture_collection == texture_collection,
    {
        let lit = texture_collection.get(&lit_texture).unwrap();
        let unlit = texture_collection.get(&unlit_texture).unwrap();
        let ghost n_total = columns as int * rows as int;
        let mut objects: Vec<Instance> = Vec::new();
        let mut rotations: Vec<Frac> = Vec::new();
        let mut x: u32 = 0;
        while x < columns
            invariant
                0 <= x <= columns,
                n_total == columns as int * rows as int,
                n_total <= usize::MAX,
                texture_collection.map().contains_key(lit_texture@),
                texture_collection.map().contains_key(unlit_texture@),
                lit == texture_collection.map()[lit_texture@],
                unlit == texture_collection.map()[unlit_texture@],
                objects@.len() == x as int * rows as int,
                rotations@.len() == objects@.len(),
                forall|i: int|
                    0 <= i < objects@.len() ==> {
                        let t = (#[trigger] objects@[i]).transform;
                        t.wf() && t.rotation@.den == ANGLE_SCALE as int
                    },
                forall|i: int|
                    0 <= i < rotations@.len() ==> {
                        let s = #[trigger] rotations@[i];
                        s@.den == SPEED_SCALE as int && -0x4000 <= s@.num < 0x4000
                    },
                rows >= 1 ==> forall|k: int|
                    0 <= k < objects@.len() ==> {
                        let obj = #[trigger] objects@[k];
                        &&& obj.transform.translation@.x == (Q {
                            num: 2 * (k / (rows as int)) + 1,
                            den: 2,
                        })
                        &&& obj.transform.translation@.y == (Q {
                            num: 2 * (k % (rows as int)) + 1,
                            den: 2,
                        })
                        &&& obj.transform.scale@.x == q_one()
                        &&& obj.transform.scale@.y == q_one()
                        &&& obj.color_lit.a@ == q_one()
                        &&& color_in_unit_range(obj.color_lit.r@)
                        &&& color_in_unit_range(obj.color_lit.g@)
                        &&& color_in_unit_range(obj.color_lit.b@)
                        &&& color_in_unit_range(obj.color_unlit.a@)
                        &&& color_in_half_range(obj.color_unlit.r@)
                        &&& color_in_half_range(obj.color_unlit.g@)
                        &&& color_in_half_range(obj.color_unlit.b@)
                        &&& obj.texture_lit == texture_collection.map()[lit_texture@]
                        &&& obj.texture_unlit == texture_collection.map()[unlit_texture@]
                    },
            decreases columns - x,
        {
            proof {
                assert(x as int * rows as int + rows as int == (x as int + 1) * rows as int) by (
                nonlinear_arith);
                assert((x as int + 1) * rows as int <= columns as int * rows as int) by (
                nonlinear_arith)
                    requires
                        x as int + 1 <= columns as int,
                        rows as int >= 0;
            }
            let mut y: u32 = 0;
            while y < rows
                invariant
                    0 <= y <= rows,
                    0 <= x < columns,
                    n_total == columns as int * rows as int,
                    n_total <= usize::MAX,
                    x as int * rows as int + rows as int == (x as int + 1) * rows as int,
                    (x as int + 1) * rows as int <= n_total,
                    texture_collection.map().contains_key(lit_texture@),
                    texture_collection.map().contains_key(unlit_texture@),
                    lit == texture_collection.map()[lit_texture@],
                    unlit == texture_collection.map()[unlit_texture@],
                    objects@.len() == x as int * rows as int + y as int,
                    rotations@.len() == objects@.len(),
                    forall|i: int|
                        0 <= i < objects@.len() ==> {
                            let t = (#[trigger] objects@[i]).transform;
                            t.wf() && t.rotation@.den == ANGLE_SCALE as int
                        },
                    forall|i: int|
                        0 <= i < rotations@.len() ==> {
                            let s = #[trigger] rotations@[i];
                            s@.den == SPEED_SCALE as int && -0x4000 <= s@.num < 0x4000
                        },
                    rows >= 1 ==> forall|k: int|
                        0 <= k < objects@.len() ==> {
                            let obj = #[trigger] objects@[k];
                            &&& obj.transform.translation@.x == (Q {
                                num: 2 * (k / (rows as int)) + 1,
                                den: 2,
                            })
                            &&& obj.transform.translation@.y == (Q {
                                num: 2 * (k % (rows as int)) + 1,
                                den: 2,
                            })
                            &&& obj.transform.scale@.x == q_one()
                            &&& obj.transform.scale@.y == q_one()
                            &&& obj.color_lit.a@ == q_one()
                            &&& color_in_unit_range(obj.color_lit.r@)
                            &&& color_in_unit_range(obj.color_lit.g@)
                            &&& color_in_unit_range(obj.color_lit.b@)
                            &&& color_in_unit_range(obj.color_unlit.a@)
                            &&& color_in_half_range(obj.color_unlit.r@)
                            &&& color_in_half_range(obj.color_unlit.g@)
                            &&& color_in_half_range(obj.color_unlit.b@)
                            &&& obj.texture_lit == texture_collection.map()[lit_texture@]
                            &&& obj.texture_unlit == texture_collection.map()[unlit_texture@]
                        },
                decreases rows - y,
            {
                let rotation = Frac::new(random_below(0x4000_0000) as i64, ANGLE_SCALE);
                let transform = Transform::new(
                    Point {
                        x: Frac::new(2 * (x as i64) + 1, 2),
                        y: Frac::new(2 * (y as i64) + 1, 2),
                    },
                    rotation,
                    Point { x: Frac::one(), y: Frac::one() },
                );
                let color_lit = Color {
                    r: Frac::new(random_below(0x4000_0000) as i64, 0x4000_0000),
                    g: Frac::new(random_below(0x4000_0000) as i64, 0x4000_0000),
                    b: Frac::new(random_below(0x4000_0000) as i64, 0x4000_0000),
                    a: Frac::one(),
                };
                let color_unlit = Color {
                    r: Frac::new(random_below(0x4000_0000) as i64, 0x8000_0000),
                    g: Frac::new(random_below(0x4000_0000) as i64, 0x8000_0000),
                    b: Frac::new(random_below(0x4000_0000) as i64, 0x8000_0000),
                    a: Frac::new(random_below(0x4000_0000) as i64, 0x4000_0000),
                };
                objects.push(
                    Instance {
                        transform,
                        color_lit,
                        color_unlit,
                        texture_lit: lit,
                        texture_unlit: unlit,
                    },
                );
                rotations.push(Frac::new(random_below(0x8000) as i64 - 0x4000, SPEED_SCALE));
                proof {
                    let k = objects@.len() - 1;
                    lemma_fundamental_div_mod_converse(k, rows as int, x as int, y as int);
                }
                y = y + 1;
            }
            x = x + 1;
        }
        proof {
            assert(objects@.len() == n_total);
        }
        // The default view distance: the fourth root of the object count on a
        // 1/65536 grid, so the stored value is within 2^-16 of the real root.
        proof {
            assert((columns as int) * (rows as int) < 0x1_0000_0000_0000_0000) by (nonlinear_arith)
                requires
                    columns <= 0xffff_ffff,
                    rows <= 0xffff_ffff;
            assert((columns as int) * (rows as int) * 0x1_0000_0000_0000_0000
                < 0x1_0000_0000_0000_0000_0000_0000_0000_0000) by (nonlinear_arith)
                requires
                    0 <= (columns as int) * (rows as int) < 0x1_0000_0000_0000_0000;
        }
        let scaled: u128 = (columns as u128) * (rows as u128) * 0x1_0000_0000_0000_0000;
        let root = isqrt128(scaled);
        let quarter = isqrt128(root);
        proof {
            assert((quarter as int) * (quarter as int) * (quarter as int) * (quarter as int)
                <= scaled as int && ((quarter as int) + 1) * ((quarter as int) + 1) * ((
            quarter as int) + 1) * ((quarter as int) + 1) > scaled as int) by (nonlinear_arith)
                requires
                    (quarter as int) * (quarter as int) <= root as int,
                    ((quarter as int) + 1) * ((quarter as int) + 1) > root as int,
                    (root as int) * (root as int) <= scaled as int,
                    ((root as int) + 1) * ((root as int) + 1) > scaled as int,
                    quarter >= 0,
                    root >= 0;
            assert(quarter <= 0x1_0000_0000) by (nonlinear_arith)
                requires
                    (quarter as int) * (quarter as int) <= root as int,
                    root <= 0xffff_ffff_ffff_ffff,
                    quarter >= 0;
            assert(scaled as int == n_total * 0x1_0000_0000_0000_0000);
        }
        TestScene {
            objects,
            view_rect: Rect {
                min: Point { x: Frac::zero(), y: Frac::zero() },
                max: Point {
                    x: Frac::from_int(columns as i64),
                    y: Frac::from_int(rows as i64),
                },
            },
            rotation_speeds: rotations,
            view_distance: Frac::new(quarter as i64, 65536),
            view_origin: Point::origin(),
            texture_collection,
            sharpness: Frac::one(),
        }
    }

    /// The rotation of an object after one update step: advanced by its
    /// angular velocity times the elapsed seconds, wrapped into one turn,
    /// and snapped back to the rotation grid.
    pub open spec fn stepped_rotation(rotation: Q, speed: Q, elapsed: Q) -> Q {
        q_quantize(q_wrap_turn(q_add(rotation, q_mul(speed, elapsed))))
    }

    /// Advance every object's rotation by its angular velocity times
    /// `elapsed` seconds. The elapsed time must be quantized to the speed
    /// grid and at most a couple of minutes, so that the exact intermediate
    /// rotation stays representable.
    pub fn update(&mut self, elapsed: Frac)
        requires
            old(self).wf(),
            elapsed.wf(),
            0 < elapsed@.den <= SPEED_SCALE as int,
            -0x20000 <= elapsed@.num <= 0x20000,
        ensures
            final(self).wf(),
            final(self).objects@.len() == old(self).objects@.len(),
            forall|i: int|
                0 <= i < old(self).objects@.len() ==> #[trigger] final(self).objects@[i]
                    == (Instance {
                    transform: Transform {
                        rotation: frac_of(
                            TestScene::stepped_rotation(
                                old(self).objects@[i].transform.rotation@,
                                old(self).rotation_speeds@[i]@,
                                elapsed@,
                            ),
                        ),
                        ..old(self).objects@[i].transform
                    },
                    ..old(self).objects@[i]
                }),
            final(self).rotation_speeds == old(self).rotation_speeds,
            final(self).view_rect == old(self).view_rect,
            final(self).view_origin == old(self).view_origin,
            final(self).view_distance == old(self).view_distance,
            final(self).sharpness == old(self).sharpness,
    {
        let n = self.objects.len();
        let mut updated: Vec<Instance> = Vec::new();
        let mut i: usize = 0;
        while i < n
            invariant
                0 <= i <= n,
                n == self.objects@.len(),
                *self == *old(self),
                old(self).wf(),
                elapsed.wf(),
                0 < elapsed@.den <= SPEED_SCALE as int,
                -0x20000 <= elapsed@.num <= 0x20000,
                updated@.len() == i,
                forall|k: int|
                    0 <= k < i ==> #[trigger] updated@[k] == (Instance {
                        transform: Transform {
                            rotation: frac_of(
                                TestScene::stepped_rotation(
                                    old(self).objects@[k].transform.rotation@,
                                    old(self).rotation_speeds@[k]@,
                                    elapsed@,
                                ),
                            ),
                            ..old(self).objects@[k].transform
                        },
                        ..old(self).objects@[k]
                    }),
                forall|k: int|
                    0 <= k < i ==> {
                        let t = (#[trigger] updated@[k]).transform;
                        t.wf() && t.rotation@.den == ANGLE_SCALE as int
                    },
            decreases n - i,
        {
            let mut obj = self.objects[i];
            let speed = self.rotation_speeds[i];
            proof {
                assert(q_in_range(q_mul(speed@, elapsed@)) && -0x8000_0000 <= q_mul(
                    speed@,
                    elapsed@,
                ).num <= 0x8000_0000 && 0 < q_mul(speed@, elapsed@).den <= 0x4000_0000) by (nonlinear_arith)
                    requires
                        q_mul(speed@, elapsed@).num == speed@.num * elapsed@.num,
                        q_mul(speed@, elapsed@).den == speed@.den * elapsed@.den,
                        -0x4000 <= speed@.num < 0x4000,
                        speed@.den == 0x8000,
                        -0x20000 <= elapsed@.num <= 0x20000,
                        0 < elapsed@.den <= 0x8000,
                        q_in_range(q_mul(speed@, elapsed@)) == (-0x7fff_ffff_ffff_ffff <= q_mul(
                            speed@,
                            elapsed@,
                        ).num <= 0x7fff_ffff_ffff_ffff && 0 < q_mul(speed@, elapsed@).den
                            <= 0x7fff_ffff_ffff_ffff);
            }
            let delta = speed.mul(elapsed);
            let rot = obj.transform.rotation;
            proof {
                assert(q_in_range(q_add(rot@, delta@))) by (nonlinear_arith)
                    requires
                        q_add(rot@, delta@).num == rot@.num * delta@.den + delta@.num * rot@.den,
                        q_add(rot@, delta@).den == rot@.den * delta@.den,
                        0 <= rot@.num < rot@.den,
                        rot@.den == 0x4000_0000,
                        -0x8000_0000 <= delta@.num <= 0x8000_0000,
                        0 < delta@.den <= 0x4000_0000,
                        q_in_range(q_add(rot@, delta@)) == (-0x7fff_ffff_ffff_ffff <= q_add(
                            rot@,
                            delta@,
                        ).num <= 0x7fff_ffff_ffff_ffff && 0 < q_add(rot@, delta@).den
                            <= 0x7fff_ffff_ffff_ffff);
            }
            let new_rot = quantize_turn(wrap_turn(rot.add(delta)));
            obj.transform.set_rotation(new_rot);
            updated.push(obj);
            i = i + 1;
        }
        self.objects = updated;
    }

    /// Apply a wheel action with the given wheel delta: scale the view
    /// distance or the sharpness by `1 + delta / 8` and snap the result to
    /// the 1/65536 grid, so denominators stay bounded over repeated wheel
    /// steps; the other actions leave the scene alone. The delta must lie in
    /// `[-64, 64]` on that grid or coarser, and the scaled field must be
    /// wheel-scalable (see [`wheel_scalable`]).
    pub fn apply_wheel_action(&mut self, action: WheelAction, delta: Frac)
        requires
            delta.wf(),
            delta@.den <= 65536,
            -64 * delta@.den <= delta@.num <= 64 * delta@.den,
            action == WheelAction::ChangeViewSize ==> wheel_scalable(old(self).view_distance@),
            action == WheelAction::ChangeViewSharpness ==> wheel_scalable(old(self).sharpness@),
        ensures
            action == WheelAction::ChangeViewSize ==> *final(self) == (TestScene {
                view_distance: frac_of(
                    q_snap(q_mul(old(self).view_distance@, wheel_factor(delta@))),
                ),
                ..*old(self)
            }),
            action == WheelAction::ChangeViewSharpness ==> *final(self) == (TestScene {
                sharpness: frac_of(q_snap(q_mul(old(self).sharpness@, wheel_factor(delta@)))),
                ..*old(self)
            }),
            action == WheelAction::Nothing || action == WheelAction::ChangeSceneSize ==> *final(self)
                == *old(self),
    {
        let factor = Frac::one().add(delta.div(Frac::from_int(8)));
        proof {
            assert(factor@ == wheel_factor(delta@));
        }
        match action {
            WheelAction::Nothing => (),
            WheelAction::ChangeViewSize => {
                proof {
                    lemma_wheel_step_in_range(self.view_distance@, delta@, factor@);
                }
                self.view_distance = snap_scalar(self.view_distance.mul(factor));
            },
            WheelAction::ChangeViewSharpness => {
                proof {
                    lemma_wheel_step_in_range(self.sharpness@, delta@, factor@);
                }
                self.sharpness = snap_scalar(self.sharpness.mul(factor));
            },
            WheelAction::ChangeSceneSize => (),
        }
    }

    /// Hand the texture collection back when the scene is done.
    pub fn free_texture_collection(self) -> (r: TextureCollection)
        ensures
            r == self.texture_collection,
    {
        self.texture_collection
    }
}

/// One wheel step on a scalable scalar stays representable: the exact
/// product fits a `Frac`, and its snapped numerator fits as well.
proof fn lemma_wheel_step_in_range(v: Q, delta: Q, f: Q)
    requires
        wheel_scalable(v),
        delta.den >= 1,
        delta.den <= 65536,
        -64 * delta.den <= delta.num <= 64 * delta.den,
        f == wheel_factor(delta),
    ensures
        q_in_range(q_mul(v, f)),
        -0x7fff_ffff_ffff_ffff <= (q_mul(v, f).num * 65536) / q_mul(v, f).den
            <= 0x7fff_ffff_ffff_ffff,
{
    let p = q_mul(v, f);
    assert(f.num == 8 * delta.den + delta.num && f.den == 8 * delta.den);
    assert(-72 * delta.den <= f.num <= 72 * delta.den);
    assert(q_in_range(p)) by (nonlinear_arith)
        requires
            p.num == v.num * f.num,
            p.den == v.den * f.den,
            -0x40_0000_0000 <= v.num <= 0x40_0000_0000,
            1 <= v.den <= 65536,
            1 <= delta.den <= 65536,
            -72 * delta.den <= f.num <= 72 * delta.den,
            f.den == 8 * delta.den,
            q_in_range(p) == (-0x7fff_ffff_ffff_ffff <= p.num <= 0x7fff_ffff_ffff_ffff && 0
                < p.den <= 0x7fff_ffff_ffff_ffff);
    // The snapped numerator is at most about 2^58 because the product's
    // value is bounded by the value bounds of both inputs.
    assert(-(0x400_0000_0000_0000) * p.den <= p.num * 65536 <= 0x400_0000_0000_0000 * p.den) by (
    nonlinear_arith)
        requires
            p.num == v.num * f.num,
            p.den == v.den * f.den,
            -0x40_0000_0000 <= v.num <= 0x40_0000_0000,
            v.den >= 1,
            delta.den >= 1,
            -72 * delta.den <= f.num <= 72 * delta.den,
            f.den == 8 * delta.den;
    lemma_fundamental_div_mod(p.num * 65536, p.den);
    vstd::arithmetic::div_mod::lemma_mod_bound(p.num * 65536, p.den);
    let qq = (p.num * 65536) / p.den;
    let rr = (p.num * 65536) % p.den;
    assert(-0x7fff_ffff_ffff_ffff <= qq <= 0x7fff_ffff_ffff_ffff) by (nonlinear_arith)
        requires
            p.num * 65536 == p.den * qq + rr,
            0 <= rr < p.den,
            p.den >= 1,
            -(0x400_0000_0000_0000) * p.den <= p.num * 65536 <= 0x400_0000_0000_0000 * p.den;
}

} // verus!
