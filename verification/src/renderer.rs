//! The verified core of the instanced batch renderer: the shared quad mesh,
//! the per-frame uniforms, and the splitting of the instance list into
//! fixed-size batches of GPU records.
//!
//! Submitting the batches to the GPU happens outside the library: a frame is
//! planned here, and each planned batch becomes exactly one draw call.

use vstd::arithmetic::div_mod::lemma_fundamental_div_mod_converse;
use vstd::prelude::*;

use crate::camera::{
    projection_scale, q_rect_center_x, q_rect_center_y, q_rect_h, q_rect_w, q_view_scale,
    view_ok, view_scale_in_range,
};
use crate::frac::{
    components_in_range, q_add, q_div, q_in_range, q_int, q_mul, wide_mul128, Frac, Q,
};
use crate::instance::{per_instance_of, Instance, PerInstance};
use crate::math::{Point, QRect, Rect};
use crate::scene::Scene;

verus! {

/// The number of instances uploaded per draw call when no other size is
/// configured.
pub fn default_batch_size() -> (r: usize)
    ensures
        r == 1024,
{
    1024
}

/// A vertex of the shared quad mesh.
#[derive(Clone, Copy, Debug, PartialEq, Eq, Structural)]
pub struct Vertex {
    pub position: Point,
    pub tex_coords: Point,
}

/// The four corners of the centered unit quad, with texture coordinates
/// covering the unit square.
pub open spec fn quad_vertices_spec() -> Seq<Vertex> {
    let nh = Frac { num: -1i64, den: 2i64 };
    let ph = Frac { num: 1i64, den: 2i64 };
    let z = Frac { num: 0i64, den: 1i64 };
    let o = Frac { num: 1i64, den: 1i64 };
    seq![
        Vertex { position: Point { x: nh, y: ph }, tex_coords: Point { x: z, y: o } },
        Vertex { position: Point { x: nh, y: nh }, tex_coords: Point { x: z, y: z } },
        Vertex { position: Point { x: ph, y: ph }, tex_coords: Point { x: o, y: o } },
        Vertex { position: Point { x: ph, y: nh }, tex_coords: Point { x: o, y: z } },
    ]
}

/// The vertices of the quad mesh every instance reuses: a square of side 1
/// centered on the origin.
pub fn quad_vertices() -> (r: Vec<Vertex>)
    ensures
        r@ == quad_vertices_spec(),
{
    let nh = Frac::new(-1, 2);
    let ph = Frac::new(1, 2);
    let z = Frac::zero();
    let o = Frac::one();
    let v = vec![
        Vertex { position: Point { x: nh, y: ph }, tex_coords: Point { x: z, y: o } },
        Vertex { position: Point { x: nh, y: nh }, tex_coords: Point { x: z, y: z } },
        Vertex { position: Point { x: ph, y: ph }, tex_coords: Point { x: o, y: o } },
        Vertex { position: Point { x: ph, y: nh }, tex_coords: Point { x: o, y: z } },
    ];
    proof {
        assert(v@ =~= quad_vertices_spec());
    }
    v
}

/// The two triangles of the quad, as indices into `quad_vertices`.
pub fn quad_indices() -> (r: Vec<u16>)
    ensures
        r@ == seq![0u16, 1u16, 2u16, 1u16, 2u16, 3u16],
{
    let v = vec![0u16, 1u16, 2u16, 1u16, 2u16, 3u16];
    proof {
        assert(v@ =~= seq![0u16, 1u16, 2u16, 1u16, 2u16, 3u16]);
    }
    v
}

/// How many batches `n` instances fill at `bs` per batch: `ceil(n / bs)`.
pub open spec fn batch_count(n: int, bs: int) -> int {
    (n + bs - 1) / bs
}

/// The length of batch `i`: full, except for a shorter final batch.
pub open spec fn batch_len(n: int, bs: int, i: int) -> int {
    if (i + 1) * bs <= n {
        bs
    } else {
        n - i * bs
    }
}

/// Split the instances into consecutive batches of at most `batch_size`
/// records each, in order, converting every instance to its GPU record.
/// Batch `j / batch_size` holds the record of instance `j` at offset
/// `j % batch_size`; no batch is empty and none exceeds `batch_size`.
pub fn plan_batches(instances: &Vec<Instance>, batch_size: usize) -> (r: Vec<Vec<PerInstance>>)
    requires
        batch_size >= 1,
    ensures
        r@.len() == batch_count(instances@.len() as int, batch_size as int),
        forall|i: int|
            0 <= i < r@.len() ==> (#[trigger] r@[i])@.len() == batch_len(
                instances@.len() as int,
                batch_size as int,
                i,
            ),
        forall|j: int|
            0 <= j < instances@.len() ==> #[trigger] r@[j / (batch_size as int)]@[j % (
            batch_size as int)] == per_instance_of(instances@[j]),
{
    let n = instances.len();
    let ghost bs = batch_size as int;
    let mut r: Vec<Vec<PerInstance>> = Vec::new();
    let mut i: usize = 0;
    proof {
        lemma_fundamental_div_mod_converse(0 + bs - 1, bs, 0, bs - 1);
        assert(r@.len() * bs == 0) by (nonlinear_arith)
            requires
                r@.len() == 0;
    }
    while i < n
        invariant
            0 <= i <= n,
            n == instances@.len(),
            bs == batch_size as int,
            batch_size >= 1,
            i == r@.len() * bs || i == n,
            r@.len() == batch_count(i as int, bs),
            forall|t: int| 0 <= t < r@.len() ==> (#[trigger] r@[t])@.len() == batch_len(n as int, bs, t),
            forall|j: int|
                0 <= j < i ==> #[trigger] r@[j / bs]@[j % bs] == per_instance_of(instances@[j]),
        decreases n - i,
    {
        let ghost k = r@.len() as int;
        proof {
            assert(i == k * bs);
        }
        let end = if n - i < batch_size {
            n
        } else {
            i + batch_size
        };
        let mut batch: Vec<PerInstance> = Vec::new();
        let mut j = i;
        while j < end
            invariant
                i <= j <= end,
                i < end <= n,
                n == instances@.len(),
                end - i <= batch_size,
                bs == batch_size as int,
                batch@.len() == j - i,
                forall|u: int|
                    i <= u < j ==> #[trigger] batch@[u - i] == per_instance_of(instances@[u]),
            decreases end - j,
        {
            batch.push(PerInstance::from(instances[j]));
            j = j + 1;
        }
        proof {
            // Each index in this batch lands at (k, u - i) of the plan.
            assert forall|u: int| i <= u < end implies #[trigger] (u / bs) == k && u % bs == u - i by {
                lemma_fundamental_div_mod_converse(u, bs, k, u - i);
            }
            // Indices of earlier batches stay where they were.
            assert forall|j: int| 0 <= j < i implies 0 <= #[trigger] (j / bs) < k by {
                vstd::arithmetic::div_mod::lemma_fundamental_div_mod(j, bs);
                vstd::arithmetic::div_mod::lemma_mod_bound(j, bs);
                assert(0 <= j / bs < k) by (nonlinear_arith)
                    requires
                        j == bs * (j / bs) + j % bs,
                        0 <= j % bs < bs,
                        0 <= j < k * bs,
                        bs >= 1;
            }
            // One more batch is accounted for.
            if end == i + batch_size {
                assert(end as int + bs - 1 == (k + 1) * bs + (bs - 1)) by (nonlinear_arith)
                    requires
                        end == i + bs,
                        i == k * bs;
                lemma_fundamental_div_mod_converse((k + 1) * bs + bs - 1, bs, k + 1, bs - 1);
                assert(batch_count(end as int, bs) == k + 1);
                assert(batch_len(n as int, bs, k) == bs) by (nonlinear_arith)
                    requires
                        end == i + bs,
                        i == k * bs,
                        end <= n,
                        batch_len(n as int, bs, k) == (if (k + 1) * bs <= n {
                            bs
                        } else {
                            n - k * bs
                        });
            } else {
                assert(n as int + bs - 1 == (k + 1) * bs + (n - i - 1)) by (nonlinear_arith)
                    requires
                        i == k * bs,
                        i < n,
                        n < i + bs;
                lemma_fundamental_div_mod_converse(n as int + bs - 1, bs, k + 1, n - i - 1);
                assert(batch_count(n as int, bs) == k + 1);
                assert(batch_len(n as int, bs, k) == n - i) by (nonlinear_arith)
                    requires
                        i == k * bs,
                        i < n,
                        n < i + bs,
                        batch_len(n as int, bs, k) == (if (k + 1) * bs <= n {
                            bs
                        } else {
                            n - k * bs
                        });
            }
        }
        r.push(batch);
        i = end;
    }
    proof {
        assert(i == n);
    }
    r
}

/// The total number of records across all batches.
pub open spec fn total_instances(batches: Seq<Vec<PerInstance>>) -> int
    decreases batches.len(),
{
    if batches.len() == 0 {
        0
    } else {
        total_instances(batches.drop_last()) + batches.last()@.len()
    }
}

/// Law (batching completeness): a plan of `ceil(n / bs)` batches whose
/// lengths follow `batch_len` draws every one of the `n` instances exactly
/// once — the batch lengths sum to `n`. Zero instances need zero batches.
pub proof fn lemma_batching_complete(batches: Seq<Vec<PerInstance>>, n: int, bs: int)
    requires
        bs >= 1,
        n >= 0,
        batches.len() == batch_count(n, bs),
        forall|i: int| 0 <= i < batches.len() ==> (#[trigger] batches[i])@.len() == batch_len(n, bs, i),
    ensures
        total_instances(batches) == n,
    decreases batches.len(),
{
    let k = batches.len() as int;
    if k == 0 {
        if n >= 1 {
            vstd::arithmetic::div_mod::lemma_div_non_zero(n + bs - 1, bs);
        }
    } else {
        // The batches before the last one cover `(k - 1) * bs` instances.
        let m = (k - 1) * bs;
        assert(m + bs - 1 == (k - 1) * bs + (bs - 1)) by (nonlinear_arith)
            requires
                m == (k - 1) * bs;
        lemma_fundamental_div_mod_converse(m + bs - 1, bs, k - 1, bs - 1);
        assert(batch_count(m, bs) == k - 1);
        // The total splits into the prefix and the final batch.
        assert(m < n <= m + bs) by {
            vstd::arithmetic::div_mod::lemma_fundamental_div_mod(n + bs - 1, bs);
            assert(n + bs - 1 == bs * k + (n + bs - 1) % bs);
            vstd::arithmetic::div_mod::lemma_mod_bound(n + bs - 1, bs);
            assert(m < n <= m + bs) by (nonlinear_arith)
                requires
                    bs >= 1,
                    m == (k - 1) * bs,
                    n + bs - 1 == bs * k + (n + bs - 1) % bs,
                    0 <= (n + bs - 1) % bs < bs;
        }
        assert forall|i: int| 0 <= i < k - 1 implies batch_len(n, bs, i) == batch_len(m, bs, i) by {
            assert((i + 1) * bs <= m && (i + 1) * bs <= n) by (nonlinear_arith)
                requires
                    0 <= i < k - 1,
                    bs >= 1,
                    m == (k - 1) * bs,
                    m < n;
        }
        assert forall|i: int|
            0 <= i < batches.drop_last().len() implies (#[trigger] batches.drop_last()[i])@.len()
            == batch_len(m, bs, i) by {
            assert(batches.drop_last()[i] == batches[i]);
        }
        lemma_batching_complete(batches.drop_last(), m, bs);
        assert(batch_len(n, bs, k - 1) == n - m) by (nonlinear_arith)
            requires
                bs >= 1,
                m == (k - 1) * bs,
                m < n <= m + bs,
                batch_len(n, bs, k - 1) == (if k * bs <= n {
                    bs
                } else {
                    n - (k - 1) * bs
                });
    }
}

/// The uniforms of one frame, as the shader receives them.
#[derive(Clone, Copy, Debug, PartialEq, Eq, Structural)]
pub struct FrameUniforms {
    /// Scale mapping the view rectangle into clip space.
    pub u_scale: Point,
    /// The view rectangle's center; subtracted from world positions.
    pub u_translation: Point,
    /// Origin of the looker object.
    pub u_view_origin: Point,
    /// Visibility distance from the view origin.
    pub u_view_distance: Frac,
}

/// Everything one frame needs: the uniforms and the batched instance
/// records, one draw call per batch.
pub struct FramePlan {
    pub uniforms: FrameUniforms,
    pub batches: Vec<Vec<PerInstance>>,
}

/// Every intermediate of the frame-uniform computation is representable.
pub open spec fn frame_in_range(rect: QRect, ratio: crate::frac::Q) -> bool {
    &&& view_scale_in_range(rect, ratio, q_int(2))
    &&& q_in_range(q_add(rect.min.x, rect.max.x))
    &&& q_in_range(q_rect_center_x(rect))
    &&& q_in_range(q_add(rect.min.y, rect.max.y))
    &&& q_in_range(q_rect_center_y(rect))
}

/// Decide at run time whether a frame can be planned for this view: true
/// exactly when the view is meaningful (positive extent and ratio) and
/// every intermediate of the uniform computation is representable. Callers
/// outside the proof system test this before `plan_frame`.
pub fn frame_plan_ready(view_rect: &Rect, ratio: Frac) -> (r: bool)
    requires
        view_rect.wf(),
        ratio.wf(),
    ensures
        r == (view_ok(view_rect@, ratio@) && frame_in_range(view_rect@, ratio@)),
{
    let axn = view_rect.min.x.num as i128;
    let axd = view_rect.min.x.den as i128;
    let bxn = view_rect.max.x.num as i128;
    let bxd = view_rect.max.x.den as i128;
    let ayn = view_rect.min.y.num as i128;
    let ayd = view_rect.min.y.den as i128;
    let byn = view_rect.max.y.num as i128;
    let byd = view_rect.max.y.den as i128;
    let rn = ratio.num as i128;
    let rd = ratio.den as i128;
    // The extents and the positivity part of a meaningful view.
    let wn = wide_mul128(bxn, axd) - wide_mul128(axn, bxd);
    let wd = wide_mul128(bxd, axd);
    let hn = wide_mul128(byn, ayd) - wide_mul128(ayn, byd);
    let hd = wide_mul128(byd, ayd);
    proof {
        assert(q_rect_w(view_rect@) == (Q { num: wn as int, den: wd as int }));
        assert(q_rect_h(view_rect@) == (Q { num: hn as int, den: hd as int }));
    }
    if !(wn > 0 && hn > 0 && ratio.num > 0) {
        return false;
    }
    // The extents themselves.
    if !(components_in_range(wn, wd) && components_in_range(hn, hd)) {
        return false;
    }
    // ratio * height.
    let rhn = wide_mul128(rn, hn);
    let rhd = wide_mul128(rd, hd);
    proof {
        assert(q_mul(ratio@, q_rect_h(view_rect@)) == (Q { num: rhn as int, den: rhd as int }));
        assert(rhn > 0) by (nonlinear_arith)
            requires
                rhn == rn * hn,
                rn > 0,
                hn > 0;
    }
    if !components_in_range(rhn, rhd) {
        return false;
    }
    // The three axis scales 2/width, 2/height, 2/(ratio*height).
    proof {
        assert(q_div(q_int(2), q_rect_w(view_rect@)) == (Q {
            num: (2 * wd) as int,
            den: wn as int,
        }));
        assert(q_div(q_int(2), q_rect_h(view_rect@)) == (Q {
            num: (2 * hd) as int,
            den: hn as int,
        }));
        assert(q_div(q_int(2), q_mul(ratio@, q_rect_h(view_rect@))) == (Q {
            num: (2 * rhd) as int,
            den: rhn as int,
        }));
    }
    if !(components_in_range(2 * wd, wn) && components_in_range(2 * hd, hn)
        && components_in_range(2 * rhd, rhn)) {
        return false;
    }
    // The vertical scale candidates: ratio times either branch.
    let vxn = wide_mul128(rn, 2 * wd);
    let vxd = wide_mul128(rd, wn);
    let vyn = wide_mul128(rn, 2 * rhd);
    let vyd = wide_mul128(rd, rhn);
    proof {
        assert(q_mul(ratio@, q_div(q_int(2), q_rect_w(view_rect@))) == (Q {
            num: vxn as int,
            den: vxd as int,
        }));
        assert(q_mul(ratio@, q_div(q_int(2), q_mul(ratio@, q_rect_h(view_rect@)))) == (Q {
            num: vyn as int,
            den: vyd as int,
        }));
    }
    if !(components_in_range(vxn, vxd) && components_in_range(vyn, vyd)) {
        return false;
    }
    // The center of the rectangle.
    let cxn = wide_mul128(axn, bxd) + wide_mul128(bxn, axd);
    let cxd = wide_mul128(axd, bxd);
    let cyn = wide_mul128(ayn, byd) + wide_mul128(byn, ayd);
    let cyd = wide_mul128(ayd, byd);
    proof {
        assert(q_add(view_rect@.min.x, view_rect@.max.x) == (Q {
            num: cxn as int,
            den: cxd as int,
        }));
        assert(q_add(view_rect@.min.y, view_rect@.max.y) == (Q {
            num: cyn as int,
            den: cyd as int,
        }));
        assert(q_rect_center_x(view_rect@) == (Q { num: cxn as int, den: (2 * cxd) as int }));
        assert(q_rect_center_y(view_rect@) == (Q { num: cyn as int, den: (2 * cyd) as int }));
    }
    if !(components_in_range(cxn, cxd) && components_in_range(cxn, 2 * cxd)
        && components_in_range(cyn, cyd) && components_in_range(cyn, 2 * cyd)) {
        return false;
    }
    true
}

/// Plan one frame of a scene: compute the camera uniforms and batch every
/// instance, in order, into chunks of at most `batch_size`.
pub fn plan_frame<S: Scene>(scene: &S, ratio: Frac, batch_size: usize) -> (r: FramePlan)
    requires
        batch_size >= 1,
        ratio.wf(),
        scene.view_rect_spec().wf(),
        view_ok(scene.view_rect_spec()@, ratio@),
        frame_in_range(scene.view_rect_spec()@, ratio@),
    ensures
        r.uniforms.u_scale@ == q_view_scale(
            scene.view_rect_spec()@,
            ratio@,
            scene.preserve_ratio_spec(),
            q_int(2),
        ),
        r.uniforms.u_translation@.x == q_rect_center_x(scene.view_rect_spec()@),
        r.uniforms.u_translation@.y == q_rect_center_y(scene.view_rect_spec()@),
        r.uniforms.u_view_origin == scene.view_origin_spec(),
        r.uniforms.u_view_distance == scene.view_distance_spec(),
        r.batches@.len() == batch_count(
            scene.instances_spec().len() as int,
            batch_size as int,
        ),
        forall|i: int|
            0 <= i < r.batches@.len() ==> (#[trigger] r.batches@[i])@.len() == batch_len(
                scene.instances_spec().len() as int,
                batch_size as int,
                i,
            ),
        forall|j: int|
            0 <= j < scene.instances_spec().len() ==> #[trigger] r.batches@[j / (
            batch_size as int)]@[j % (batch_size as int)] == per_instance_of(
                scene.instances_spec()[j],
            ),
{
    let rect = scene.view_rect();
    let u_scale = projection_scale(&rect, ratio, scene.preserve_ratio());
    let u_translation = rect.center();
    let batches = plan_batches(scene.object_instances(), batch_size);
    FramePlan {
        uniforms: FrameUniforms {
            u_scale,
            u_translation,
            u_view_origin: scene.view_origin(),
            u_view_distance: scene.view_distance(),
        },
        batches,
    }
}

} // verus!
