//! Camera projection: the scale and translation that map a world-space view
//! rectangle into clip space, and the inverse mapping from normalized screen
//! coordinates back to world space.
//!
//! With `preserve_ratio` the tighter-fitting axis drives one common scale,
//! so the view rectangle is letterboxed rather than cropped; the vertical
//! axis is additionally multiplied by the viewport's width-to-height ratio.

use vstd::prelude::*;

use crate::frac::{
    q_add, q_div, q_eqv, q_half, q_in_range, q_int, q_le, q_lt, q_mul, q_neg, q_one, q_sub, q_wf,
    q_zero, Frac, Q,
};
use crate::math::{Point, QPoint, QRect, Rect};

verus! {

/// Twice the value: the numerator doubled.
pub open spec fn q_double(a: Q) -> Q {
    Q { num: 2 * a.num, den: a.den }
}

pub open spec fn q_rect_w(r: QRect) -> Q {
    q_sub(r.max.x, r.min.x)
}

pub open spec fn q_rect_h(r: QRect) -> Q {
    q_sub(r.max.y, r.min.y)
}

pub open spec fn q_rect_center_x(r: QRect) -> Q {
    q_half(q_add(r.min.x, r.max.x))
}

pub open spec fn q_rect_center_y(r: QRect) -> Q {
    q_half(q_add(r.min.y, r.max.y))
}

/// A meaningful view: denominators positive, the rectangle properly
/// ordered, the viewport ratio positive.
pub open spec fn view_wf(rect: QRect, ratio: Q) -> bool {
    &&& q_wf(rect.min.x)
    &&& q_wf(rect.min.y)
    &&& q_wf(rect.max.x)
    &&& q_wf(rect.max.y)
    &&& q_wf(ratio)
    &&& q_lt(q_zero(), q_rect_w(rect))
    &&& q_lt(q_zero(), q_rect_h(rect))
    &&& q_lt(q_zero(), ratio)
}

/// The view rectangle and viewport ratio a camera can project: meaningful,
/// with all components representable.
pub open spec fn view_ok(rect: QRect, ratio: Q) -> bool {
    &&& view_wf(rect, ratio)
    &&& q_in_range(rect.min.x)
    &&& q_in_range(rect.min.y)
    &&& q_in_range(rect.max.x)
    &&& q_in_range(rect.max.y)
    &&& q_in_range(ratio)
}

/// The per-axis scale that maps the view rectangle into a space `k` units
/// wide. Without `preserve` each axis is scaled independently to `k / width`
/// and `k / height`; with `preserve` the smaller of `k / width` and
/// `k / (ratio * height)` drives both axes, and the vertical axis is
/// multiplied by the viewport ratio.
pub open spec fn q_view_scale(rect: QRect, ratio: Q, preserve: bool, k: Q) -> QPoint {
    let w = q_rect_w(rect);
    let h = q_rect_h(rect);
    if preserve {
        let sx = q_div(k, w);
        let sy = q_div(k, q_mul(ratio, h));
        let s = if q_le(sx, sy) {
            sx
        } else {
            sy
        };
        QPoint { x: s, y: q_mul(ratio, s) }
    } else {
        QPoint { x: q_div(k, w), y: q_div(k, h) }
    }
}

/// Every intermediate of the scale computation is representable.
pub open spec fn view_scale_in_range(rect: QRect, ratio: Q, k: Q) -> bool {
    &&& q_in_range(q_rect_w(rect))
    &&& q_in_range(q_rect_h(rect))
    &&& q_in_range(q_mul(ratio, q_rect_h(rect)))
    &&& q_in_range(q_div(k, q_rect_w(rect)))
    &&& q_in_range(q_div(k, q_rect_h(rect)))
    &&& q_in_range(q_div(k, q_mul(ratio, q_rect_h(rect))))
    &&& q_in_range(q_mul(ratio, q_div(k, q_rect_w(rect))))
    &&& q_in_range(q_mul(ratio, q_div(k, q_mul(ratio, q_rect_h(rect)))))
}

/// Compute the view scale for a unit of `k` units; shared by the projection
/// (`k == 2`, clip space is two units wide) and the inverse mapping
/// (`k == 1`, normalized screen space is one unit wide).
fn view_scale(view_rect: &Rect, ratio: Frac, preserve: bool, k: Frac) -> (r: Point)
    requires
        view_rect.wf(),
        ratio.wf(),
        k.wf(),
        view_ok(view_rect@, ratio@),
        view_scale_in_range(view_rect@, ratio@, k@),
    ensures
        r@ == q_view_scale(view_rect@, ratio@, preserve, k@),
        r.wf(),
{
    let w = view_rect.width();
    let h = view_rect.height();
    if preserve {
        let sx = k.div(w);
        let rh = ratio.mul(h);
        proof {
            assert(rh@.num > 0) by (nonlinear_arith)
                requires
                    rh@.num == ratio@.num * h@.num,
                    ratio@.num > 0,
                    h@.num > 0;
        }
        let sy = k.div(rh);
        let s = if sx.le(sy) {
            sx
        } else {
            sy
        };
        Point { x: s, y: ratio.mul(s) }
    } else {
        Point { x: k.div(w), y: k.div(h) }
    }
}

/// The scale uniform that maps the view rectangle into clip space (two
/// units wide).
pub fn projection_scale(view_rect: &Rect, ratio: Frac, preserve: bool) -> (r: Point)
    requires
        view_rect.wf(),
        ratio.wf(),
        view_ok(view_rect@, ratio@),
        view_scale_in_range(view_rect@, ratio@, q_int(2)),
    ensures
        r@ == q_view_scale(view_rect@, ratio@, preserve, q_int(2)),
        r.wf(),
{
    view_scale(view_rect, ratio, preserve, Frac::from_int(2))
}

/// Where a world point lands in clip space: offset from the rectangle's
/// center, times the projection scale.
pub open spec fn q_world_to_clip(p: QPoint, rect: QRect, ratio: Q, preserve: bool) -> QPoint {
    let s = q_view_scale(rect, ratio, preserve, q_int(2));
    QPoint {
        x: q_mul(q_sub(p.x, q_rect_center_x(rect)), s.x),
        y: q_mul(q_sub(p.y, q_rect_center_y(rect)), s.y),
    }
}

/// Every intermediate of `world_to_clip` is representable.
pub open spec fn world_to_clip_in_range(p: QPoint, rect: QRect, ratio: Q, preserve: bool) -> bool {
    let s = q_view_scale(rect, ratio, preserve, q_int(2));
    &&& view_scale_in_range(rect, ratio, q_int(2))
    &&& q_in_range(q_add(rect.min.x, rect.max.x))
    &&& q_in_range(q_rect_center_x(rect))
    &&& q_in_range(q_add(rect.min.y, rect.max.y))
    &&& q_in_range(q_rect_center_y(rect))
    &&& q_in_range(q_sub(p.x, q_rect_center_x(rect)))
    &&& q_in_range(q_sub(p.y, q_rect_center_y(rect)))
    &&& q_in_range(q_mul(q_sub(p.x, q_rect_center_x(rect)), s.x))
    &&& q_in_range(q_mul(q_sub(p.y, q_rect_center_y(rect)), s.y))
}

/// Project a world point into clip space. This is what the vertex shader
/// computes from the scale and translation uniforms.
pub fn world_to_clip(p: Point, view_rect: &Rect, ratio: Frac, preserve: bool) -> (r: Point)
    requires
        p.wf(),
        view_rect.wf(),
        ratio.wf(),
        view_ok(view_rect@, ratio@),
        world_to_clip_in_range(p@, view_rect@, ratio@, preserve),
    ensures
        r@ == q_world_to_clip(p@, view_rect@, ratio@, preserve),
        r.wf(),
{
    let s = view_scale(view_rect, ratio, preserve, Frac::from_int(2));
    let c = view_rect.center();
    Point { x: p.x.sub(c.x).mul(s.x), y: p.y.sub(c.y).mul(s.y) }
}

/// From clip space (`[-1, 1]`, y up) to normalized screen space (`[0, 1]`,
/// y down).
pub open spec fn q_clip_to_screen(c: QPoint) -> QPoint {
    QPoint { x: q_half(q_add(c.x, q_one())), y: q_half(q_sub(q_one(), c.y)) }
}

/// Every intermediate of `clip_to_screen` is representable.
pub open spec fn clip_to_screen_in_range(c: QPoint) -> bool {
    &&& q_in_range(q_add(c.x, q_one()))
    &&& q_in_range(q_half(q_add(c.x, q_one())))
    &&& q_in_range(q_sub(q_one(), c.y))
    &&& q_in_range(q_half(q_sub(q_one(), c.y)))
}

/// Map a clip-space point to normalized screen coordinates; the vertical
/// flip reflects that screen-space y grows downward.
pub fn clip_to_screen(c: Point) -> (r: Point)
    requires
        c.wf(),
        clip_to_screen_in_range(c@),
    ensures
        r@ == q_clip_to_screen(c@),
        r.wf(),
{
    Point { x: c.x.add(Frac::one()).half(), y: Frac::one().sub(c.y).half() }
}

/// The world point a normalized screen coordinate looks at: the inverse of
/// the projection, anchored at the rectangle's minimum corner, with the
/// vertical axis flipped.
pub open spec fn q_screen_to_world(screen: QPoint, rect: QRect, ratio: Q, preserve: bool) -> QPoint {
    let s = q_view_scale(rect, ratio, preserve, q_one());
    QPoint {
        x: q_add(q_div(screen.x, s.x), rect.min.x),
        y: q_add(q_div(q_sub(q_one(), screen.y), s.y), rect.min.y),
    }
}

/// Every intermediate of `screen_to_world` is representable.
pub open spec fn screen_to_world_in_range(
    screen: QPoint,
    rect: QRect,
    ratio: Q,
    preserve: bool,
) -> bool {
    let s = q_view_scale(rect, ratio, preserve, q_one());
    &&& view_scale_in_range(rect, ratio, q_one())
    &&& q_in_range(q_div(screen.x, s.x))
    &&& q_in_range(q_add(q_div(screen.x, s.x), rect.min.x))
    &&& q_in_range(q_sub(q_one(), screen.y))
    &&& q_in_range(q_div(q_sub(q_one(), screen.y), s.y))
    &&& q_in_range(q_add(q_div(q_sub(q_one(), screen.y), s.y), rect.min.y))
}

/// Decide at run time whether `screen_to_world` may be called: true exactly
/// when the view is meaningful and every intermediate of the inverse mapping
/// is representable. Callers outside the proof system test this first.
pub fn screen_to_world_ready(
    normalized_screen: Point,
    view_rect: &Rect,
    ratio: Frac,
    preserve: bool,
) -> (r: bool)
    requires
        normalized_screen.wf(),
        view_rect.wf(),
        ratio.wf(),
    ensures
        r == (view_ok(view_rect@, ratio@) && screen_to_world_in_range(
            normalized_screen@,
            view_rect@,
            ratio@,
            preserve,
        )),
{
    let axn = view_rect.min.x.num as i128;
    let axd = view_rect.min.x.den as i128;
    let bxn = view_rect.max.x.num as i128;
    let bxd = view_rect.max.x.den as i128;
    let ayn = view_rect.min.y.num as i128;
    let ayd = view_rect.min.y.den as i128;
    let byn = view_rect.max.y.num as i128;
    let byd = view_rect.max.y.den as i128;
    let rn = ratio.num as i128;
    let rd = ratio.den as i128;
    let pxn = normalized_screen.x.num as i128;
    let pxd = normalized_screen.x.den as i128;
    let pyn = normalized_screen.y.num as i128;
    let pyd = normalized_screen.y.den as i128;
    // The extents and the positivity part of a meaningful view.
    let wn = crate::frac::wide_mul128(bxn, axd) - crate::frac::wide_mul128(axn, bxd);
    let wd = crate::frac::wide_mul128(bxd, axd);
    let hn = crate::frac::wide_mul128(byn, ayd) - crate::frac::wide_mul128(ayn, byd);
    let hd = crate::frac::wide_mul128(byd, ayd);
    proof {
        assert(q_rect_w(view_rect@) == (Q { num: wn as int, den: wd as int }));
        assert(q_rect_h(view_rect@) == (Q { num: hn as int, den: hd as int }));
    }
    if !(wn > 0 && hn > 0 && ratio.num > 0) {
        return false;
    }
    if !(crate::frac::components_in_range(wn, wd) && crate::frac::components_in_range(hn, hd)) {
        return false;
    }
    // ratio * height.
    let rhn = crate::frac::wide_mul128(rn, hn);
    let rhd = crate::frac::wide_mul128(rd, hd);
    proof {
        assert(q_mul(ratio@, q_rect_h(view_rect@)) == (Q { num: rhn as int, den: rhd as int }));
        assert(rhn > 0) by (nonlinear_arith)
            requires
                rhn == rn * hn,
                rn > 0,
                hn > 0;
    }
    if !crate::frac::components_in_range(rhn, rhd) {
        return false;
    }
    // The three axis scales 1/width, 1/height, 1/(ratio*height).
    proof {
        assert(q_div(q_one(), q_rect_w(view_rect@)) == (Q { num: wd as int, den: wn as int }));
        assert(q_div(q_one(), q_rect_h(view_rect@)) == (Q { num: hd as int, den: hn as int }));
        assert(q_div(q_one(), q_mul(ratio@, q_rect_h(view_rect@))) == (Q {
            num: rhd as int,
            den: rhn as int,
        }));
    }
    if !(crate::frac::components_in_range(wd, wn) && crate::frac::components_in_range(hd, hn)
        && crate::frac::components_in_range(rhd, rhn)) {
        return false;
    }
    // The vertical scale candidates: ratio times either branch.
    let vxn = crate::frac::wide_mul128(rn, wd);
    let vxd = crate::frac::wide_mul128(rd, wn);
    let vyn = crate::frac::wide_mul128(rn, rhd);
    let vyd = crate::frac::wide_mul128(rd, rhn);
    proof {
        assert(q_mul(ratio@, q_div(q_one(), q_rect_w(view_rect@))) == (Q {
            num: vxn as int,
            den: vxd as int,
        }));
        assert(q_mul(ratio@, q_div(q_one(), q_mul(ratio@, q_rect_h(view_rect@)))) == (Q {
            num: vyn as int,
            den: vyd as int,
        }));
    }
    if !(crate::frac::components_in_range(vxn, vxd) && crate::frac::components_in_range(
        vyn,
        vyd,
    )) {
        return false;
    }
    // The scale that screen_to_world divides by.
    let sxn: i128;
    let sxd: i128;
    if preserve {
        let le = crate::frac::wide_mul128(wd, rhn) <= crate::frac::wide_mul128(rhd, wn);
        if le {
            sxn = wd;
            sxd = wn;
        } else {
            sxn = rhd;
            sxd = rhn;
        }
    } else {
        sxn = wd;
        sxd = wn;
    }
    let syn: i128;
    let syd: i128;
    if preserve {
        let v = if crate::frac::wide_mul128(wd, rhn) <= crate::frac::wide_mul128(rhd, wn) {
            (vxn, vxd)
        } else {
            (vyn, vyd)
        };
        syn = v.0;
        syd = v.1;
    } else {
        syn = hd;
        syd = hn;
    }
    let ghost sv = q_view_scale(view_rect@, ratio@, preserve, q_one());
    proof {
        assert(sv.x == (Q { num: sxn as int, den: sxd as int }));
        assert(sv.y == (Q { num: syn as int, den: syd as int }));
        assert(sxn > 0 && syn > 0) by (nonlinear_arith)
            requires
                sxn == wd || sxn == rhd,
                syn == hd || syn == rn * wd || syn == rn * rhd,
                wd > 0,
                hd > 0,
                rhd == rd * hd,
                rd > 0,
                rn > 0;
    }
    // screen.x / scale.x, anchored at the minimum corner.
    let qxn = crate::frac::wide_mul128(pxn, sxd);
    let qxd = crate::frac::wide_mul128(pxd, sxn);
    proof {
        assert(q_div(normalized_screen@.x, sv.x) == (Q { num: qxn as int, den: qxd as int }));
    }
    if !crate::frac::components_in_range(qxn, qxd) {
        return false;
    }
    let oxn = crate::frac::wide_mul128(qxn, axd) + crate::frac::wide_mul128(axn, qxd);
    let oxd = crate::frac::wide_mul128(qxd, axd);
    proof {
        assert(q_add(q_div(normalized_screen@.x, sv.x), view_rect@.min.x) == (Q {
            num: oxn as int,
            den: oxd as int,
        }));
    }
    if !crate::frac::components_in_range(oxn, oxd) {
        return false;
    }
    // (1 - screen.y) / scale.y, anchored at the minimum corner.
    let fyn = pyd - pyn;
    let fyd = pyd;
    proof {
        assert(q_sub(q_one(), normalized_screen@.y) == (Q { num: fyn as int, den: fyd as int }));
    }
    if !crate::frac::components_in_range(fyn, fyd) {
        return false;
    }
    let qyn = crate::frac::wide_mul128(fyn, syd);
    let qyd = crate::frac::wide_mul128(fyd, syn);
    proof {
        assert(q_div(q_sub(q_one(), normalized_screen@.y), sv.y) == (Q {
            num: qyn as int,
            den: qyd as int,
        }));
    }
    if !crate::frac::components_in_range(qyn, qyd) {
        return false;
    }
    let oyn = crate::frac::wide_mul128(qyn, ayd) + crate::frac::wide_mul128(ayn, qyd);
    let oyd = crate::frac::wide_mul128(qyd, ayd);
    proof {
        assert(q_add(q_div(q_sub(q_one(), normalized_screen@.y), sv.y), view_rect@.min.y) == (Q {
            num: oyn as int,
            den: oyd as int,
        }));
    }
    if !crate::frac::components_in_range(oyn, oyd) {
        return false;
    }
    true
}

/// Positivity of both components of the view scale.
proof fn lemma_view_scale_positive(rect: QRect, ratio: Q, preserve: bool, k: Q)
    requires
        view_wf(rect, ratio),
        k.num > 0,
        k.den > 0,
    ensures
        q_view_scale(rect, ratio, preserve, k).x.num > 0,
        q_view_scale(rect, ratio, preserve, k).x.den > 0,
        q_view_scale(rect, ratio, preserve, k).y.num > 0,
        q_view_scale(rect, ratio, preserve, k).y.den > 0,
{
    let w = q_rect_w(rect);
    let h = q_rect_h(rect);
    assert(w.num > 0 && w.den > 0 && h.num > 0 && h.den > 0) by (nonlinear_arith)
        requires
            q_lt(q_zero(), w),
            q_lt(q_zero(), h),
            w.den == rect.max.x.den * rect.min.x.den,
            h.den == rect.max.y.den * rect.min.y.den,
            rect.min.x.den > 0,
            rect.max.x.den > 0,
            rect.min.y.den > 0,
            rect.max.y.den > 0;
    let rh = q_mul(ratio, h);
    assert(rh.num > 0 && rh.den > 0) by (nonlinear_arith)
        requires
            rh.num == ratio.num * h.num,
            rh.den == ratio.den * h.den,
            ratio.num > 0,
            ratio.den > 0,
            h.num > 0,
            h.den > 0;
    let sx = q_div(k, w);
    let sy = q_div(k, rh);
    assert(sx.num > 0 && sx.den > 0 && sy.num > 0 && sy.den > 0) by (nonlinear_arith)
        requires
            sx.num == k.num * w.den,
            sx.den == k.den * w.num,
            sy.num == k.num * rh.den,
            sy.den == k.den * rh.num,
            k.num > 0,
            k.den > 0,
            w.num > 0,
            w.den > 0,
            rh.num > 0,
            rh.den > 0;
    let s = if q_le(sx, sy) {
        sx
    } else {
        sy
    };
    assert(q_mul(ratio, s).num > 0 && q_mul(ratio, s).den > 0) by (nonlinear_arith)
        requires
            ratio.num > 0,
            ratio.den > 0,
            s.num > 0,
            s.den > 0,
            q_mul(ratio, s).num == ratio.num * s.num,
            q_mul(ratio, s).den == ratio.den * s.den;
    let sh = q_div(k, h);
    assert(sh.num > 0 && sh.den > 0) by (nonlinear_arith)
        requires
            sh.num == k.num * h.den,
            sh.den == k.den * h.num,
            k.num > 0,
            k.den > 0,
            h.num > 0,
            h.den > 0;
}

/// The inverse of the projection: which world point a normalized screen
/// coordinate (y growing downward) looks at.
pub fn screen_to_world(
    normalized_screen: Point,
    view_rect: &Rect,
    ratio: Frac,
    preserve: bool,
) -> (r: Point)
    requires
        normalized_screen.wf(),
        view_rect.wf(),
        ratio.wf(),
        view_ok(view_rect@, ratio@),
        screen_to_world_in_range(normalized_screen@, view_rect@, ratio@, preserve),
    ensures
        r@ == q_screen_to_world(normalized_screen@, view_rect@, ratio@, preserve),
        r.wf(),
{
    proof {
        lemma_view_scale_positive(view_rect@, ratio@, preserve, q_one());
    }
    let s = view_scale(view_rect, ratio, preserve, Frac::one());
    let x = normalized_screen.x.div(s.x).add(view_rect.min_x());
    let y = Frac::one().sub(normalized_screen.y).div(s.y).add(view_rect.min_y());
    Point { x, y }
}

// ---------------------------------------------------------------------------
// Laws
// ---------------------------------------------------------------------------

/// The projection scale (clip space, two units wide) is exactly twice the
/// screen scale (normalized screen space, one unit wide), axis by axis.
proof fn lemma_view_scale_doubles(rect: QRect, ratio: Q, preserve: bool)
    ensures
        q_view_scale(rect, ratio, preserve, q_int(2)).x == q_double(
            q_view_scale(rect, ratio, preserve, q_one()).x,
        ),
        q_view_scale(rect, ratio, preserve, q_int(2)).y == q_double(
            q_view_scale(rect, ratio, preserve, q_one()).y,
        ),
{
    let w = q_rect_w(rect);
    let h = q_rect_h(rect);
    let rh = q_mul(ratio, h);
    if preserve {
        let sx1 = q_div(q_one(), w);
        let sy1 = q_div(q_one(), rh);
        let sx2 = q_div(q_int(2), w);
        let sy2 = q_div(q_int(2), rh);
        assert(q_le(sx2, sy2) == q_le(sx1, sy1)) by (nonlinear_arith)
            requires
                sx1.num == 1 * w.den || sx1.num == -(1 * w.den),
                sx2.num == 2 * w.den || sx2.num == -(2 * w.den),
                sx1.num * 2 == sx2.num || true,
                q_le(sx2, sy2) == (sx2.num * sy2.den <= sy2.num * sx2.den),
                q_le(sx1, sy1) == (sx1.num * sy1.den <= sy1.num * sx1.den),
                sx2.num == 2 * sx1.num,
                sx2.den == sx1.den,
                sy2.num == 2 * sy1.num,
                sy2.den == sy1.den;
        let s1 = if q_le(sx1, sy1) {
            sx1
        } else {
            sy1
        };
        assert(q_mul(ratio, q_double(s1)) == q_double(q_mul(ratio, s1))) by (nonlinear_arith)
            requires
                q_mul(ratio, q_double(s1)).num == ratio.num * (2 * s1.num),
                q_double(q_mul(ratio, s1)).num == 2 * (ratio.num * s1.num),
                q_mul(ratio, q_double(s1)).den == ratio.den * s1.den,
                q_double(q_mul(ratio, s1)).den == ratio.den * s1.den;
    } else {
    }
}

/// Commutativity, stated so it can be instantiated with compound terms.
proof fn lemma_comm(x: int, y: int)
    ensures
        x * y == y * x,
{
    assert(x * y == y * x) by (nonlinear_arith);
}

/// Associativity of three factors.
proof fn lemma_assoc3(x: int, y: int, z: int)
    ensures
        (x * y) * z == x * (y * z),
{
    assert((x * y) * z == x * (y * z)) by (nonlinear_arith);
}

/// Regrouping two products of two factors each.
proof fn lemma_assoc4(a: int, b: int, c: int, d: int)
    ensures
        (a * b) * (c * d) == (a * c) * (b * d),
{
    assert((a * b) * (c * d) == (a * c) * (b * d)) by (nonlinear_arith);
}

/// Distribution of a sum over a product.
proof fn lemma_distrib(x: int, y: int, z: int)
    ensures
        (x + y) * z == x * z + y * z,
{
    assert((x + y) * z == x * z + y * z) by (nonlinear_arith);
}

/// Distribution of a difference over a product.
proof fn lemma_mul_sub(x: int, y: int, z: int)
    ensures
        x * (y - z) == x * y - x * z,
{
    assert(x * (y - z) == x * y - x * z) by (nonlinear_arith);
}

/// Cancelling a positive factor.
proof fn lemma_cancel_pos(m: int, x: int)
    requires
        m > 0,
        m * x == 0,
    ensures
        x == 0,
{
    assert(x == 0) by (nonlinear_arith)
        requires
            m > 0,
            m * x == 0;
}

/// Cancellation: from `s == 1/w` and `w == ratio * h` (as values) it follows
/// that `ratio * s == 1/h` (as values).
proof fn lemma_inv_scale_raw(
    sn: int,
    sd: int,
    wn: int,
    wd: int,
    rn: int,
    rd: int,
    hn: int,
    hd: int,
)
    requires
        wn > 0,
        sn * wn == wd * sd,
        wn * (rd * hd) == (rn * hn) * wd,
    ensures
        (rn * sn) * hn == hd * (rd * sd),
{
    assert((rn * hn) * (sn * wn) == (rn * hn) * (wd * sd)) by (nonlinear_arith)
        requires
            sn * wn == wd * sd;
    assert((rn * hn) * (wd * sd) == (wn * (rd * hd)) * sd) by (nonlinear_arith)
        requires
            wn * (rd * hd) == (rn * hn) * wd;
    let x = (rn * sn) * hn;
    let y = hd * (rd * sd);
    lemma_mul_sub(wn, x, y);
    assert(wn * x == (rn * hn) * (sn * wn)) by (nonlinear_arith)
        requires
            x == (rn * sn) * hn;
    assert(wn * y == (wn * (rd * hd)) * sd) by (nonlinear_arith)
        requires
            y == hd * (rd * sd);
    lemma_cancel_pos(wn, x - y);
}

/// The screen scale is the reciprocal of the rectangle's extent, axis by
/// axis — exactly without `preserve`, and as a value with `preserve` when
/// the rectangle's aspect matches the viewport (`width == ratio * height`).
proof fn lemma_screen_scale_inverse(rect: QRect, ratio: Q, preserve: bool)
    requires
        view_wf(rect, ratio),
        preserve ==> q_eqv(q_rect_w(rect), q_mul(ratio, q_rect_h(rect))),
    ensures
        q_eqv(
            q_view_scale(rect, ratio, preserve, q_one()).x,
            q_div(q_one(), q_rect_w(rect)),
        ),
        q_eqv(
            q_view_scale(rect, ratio, preserve, q_one()).y,
            q_div(q_one(), q_rect_h(rect)),
        ),
{
    let w = q_rect_w(rect);
    let h = q_rect_h(rect);
    let rh = q_mul(ratio, h);
    lemma_view_scale_positive(rect, ratio, preserve, q_one());
    let s = q_view_scale(rect, ratio, preserve, q_one());
    assert(h.num > 0 && h.den > 0 && w.num > 0 && w.den > 0) by (nonlinear_arith)
        requires
            q_lt(q_zero(), w),
            q_lt(q_zero(), h),
            w.den == rect.max.x.den * rect.min.x.den,
            h.den == rect.max.y.den * rect.min.y.den,
            rect.min.x.den > 0,
            rect.max.x.den > 0,
            rect.min.y.den > 0,
            rect.max.y.den > 0;
    if preserve {
        let sx = q_div(q_one(), w);
        let sy = q_div(q_one(), rh);
        // Either branch of the minimum is equivalent to 1/w here.
        assert(q_eqv(sy, sx)) by (nonlinear_arith)
            requires
                sy.num == 1 * rh.den,
                sy.den == 1 * rh.num,
                sx.num == 1 * w.den,
                sx.den == 1 * w.num,
                w.num * rh.den == rh.num * w.den,
                q_eqv(sy, sx) == (sy.num * sx.den == sx.num * sy.den);
        assert(q_eqv(s.x, sx));
        // And ratio times either branch is equivalent to 1/h.
        lemma_inv_scale_raw(
            s.x.num,
            s.x.den,
            w.num,
            w.den,
            ratio.num,
            ratio.den,
            h.num,
            h.den,
        );
        assert(q_eqv(s.y, q_div(q_one(), h)));
    } else {
        assert(q_eqv(s.x, q_div(q_one(), w)));
        assert(q_eqv(s.y, q_div(q_one(), h)));
    }
}

/// One axis of the round trip: when the screen scale `s` equals `1 / (mx -
/// mn)` as a value, projecting a coordinate to clip space, flipping it into
/// screen space and mapping it back through `1 / s` returns it exactly.
proof fn lemma_axis_round_trip(p: Q, mn: Q, mx: Q, s: Q)
    requires
        p.den > 0,
        mn.den > 0,
        mx.den > 0,
        s.den > 0,
        s.num > 0,
        q_sub(mx, mn).num > 0,
        q_eqv(s, q_div(q_one(), q_sub(mx, mn))),
    ensures
        q_eqv(
            q_add(
                q_div(
                    q_half(
                        q_add(q_mul(q_sub(p, q_half(q_add(mn, mx))), q_double(s)), q_one()),
                    ),
                    s,
                ),
                mn,
            ),
            p,
        ),
{
    let w = q_sub(mx, mn);
    let c = q_half(q_add(mn, mx));
    let d = q_sub(p, c);
    let e = q_add(q_mul(d, q_double(s)), q_one());
    let f = q_half(e);
    let g = q_div(f, s);
    let out = q_add(g, mn);
    // What `g` is worth: the centered offset plus half the extent.
    let gp = q_add(d, q_half(w));
    assert(c.den > 0 && d.den > 0 && g.den > 0 && out.den > 0 && w.den > 0 && gp.den > 0 && p.den
        > 0) by (nonlinear_arith)
        requires
            p.den > 0,
            mn.den > 0,
            mx.den > 0,
            s.den > 0,
            s.num > 0,
            c.den == 2 * (mn.den * mx.den),
            d.den == p.den * c.den,
            e.den == d.den * s.den,
            f.den == 2 * e.den,
            g.den == f.den * s.num,
            out.den == g.den * mn.den,
            w.den == mx.den * mn.den,
            gp.den == d.den * (2 * w.den);
    // `g` and `gp` agree as values: both are the centered offset plus half
    // the extent, because `s * w == 1` as a value.
    let dn = d.num;
    let dd = d.den;
    let sn = s.num;
    let sd = s.den;
    let wn = w.num;
    let wd = w.den;
    let t = dd * sd;
    let u = dn * sn;
    let v = dn * wd;
    let m = dd * wd;
    assert(e.num == 2 * u + t) by (nonlinear_arith)
        requires
            e.num == dn * (2 * sn) + dd * sd,
            u == dn * sn,
            t == dd * sd;
    assert(g.num == (2 * u + t) * sd);
    assert(g.den == (2 * t) * sn) by (nonlinear_arith)
        requires
            g.den == (2 * (dd * sd)) * sn,
            t == dd * sd;
    assert(gp.num == 2 * v + wn * dd) by (nonlinear_arith)
        requires
            gp.num == dn * (2 * wd) + wn * dd,
            v == dn * wd;
    assert(gp.den == 2 * m) by (nonlinear_arith)
        requires
            gp.den == dd * (2 * wd),
            m == dd * wd;
    // Left side of the value equation.
    lemma_distrib(2 * u, t, sd);
    assert(((2 * u) * sd + t * sd) * (2 * m) == ((2 * u) * sd) * (2 * m) + (t * sd) * (2 * m)) by {
        lemma_distrib((2 * u) * sd, t * sd, 2 * m);
    }
    assert(((2 * u) * sd) * (2 * m) == 4 * ((u * sd) * m)) by (nonlinear_arith);
    assert((t * sd) * (2 * m) == 2 * ((t * sd) * m)) by (nonlinear_arith);
    // Right side of the value equation.
    lemma_distrib(2 * v, wn * dd, (2 * t) * sn);
    assert((2 * v) * ((2 * t) * sn) == 4 * ((v * t) * sn)) by (nonlinear_arith);
    assert((wn * dd) * ((2 * t) * sn) == 2 * ((wn * dd) * (t * sn))) by (nonlinear_arith);
    // The quartic terms agree outright.
    assert((u * sd) * m == ((dn * sn) * sd) * (dd * wd));
    assert(((dn * sn) * sd) * (dd * wd) == ((dn * wd) * (dd * sd)) * sn) by (nonlinear_arith);
    assert((u * sd) * m == (v * t) * sn);
    // The remaining terms agree because `s * w == 1` as a value.
    assert((t * sd) * m == ((dd * dd) * sd) * (sd * wd)) by (nonlinear_arith)
        requires
            t == dd * sd,
            m == dd * wd;
    assert((wn * dd) * (t * sn) == ((dd * dd) * sd) * (sn * wn)) by (nonlinear_arith)
        requires
            t == dd * sd;
    lemma_comm(sd, wd);
    assert(sd * wd == sn * wn);
    assert((t * sd) * m == (wn * dd) * (t * sn));
    assert(g.num * gp.den == gp.num * g.den);
    let outp = q_add(gp, mn);
    lemma_eqv_add_compat(g, gp, mn);
    assert(outp.den > 0) by (nonlinear_arith)
        requires
            gp.den > 0,
            mn.den > 0,
            outp.den == gp.den * mn.den;
    // Regroup: `(d + w/2) + mn` is `d + (w/2 + mn)`, and `w/2 + mn` is the
    // center `c` as a value, so the whole thing is `d + c == p`.
    let hw = q_half(w);
    lemma_add_assoc_q(d, hw, mn);
    let x1 = q_add(hw, mn);
    assert(outp == q_add(d, x1));
    assert(x1.num * c.den == c.num * x1.den) by (nonlinear_arith)
        requires
            x1.num == w.num * mn.den + mn.num * (2 * w.den),
            x1.den == (2 * w.den) * mn.den,
            w.num == mx.num * mn.den - mn.num * mx.den,
            w.den == mx.den * mn.den,
            c.num == mn.num * mx.den + mx.num * mn.den,
            c.den == 2 * (mn.den * mx.den);
    assert(x1.den > 0 && c.den > 0 && d.den > 0) by (nonlinear_arith)
        requires
            w.den > 0,
            mn.den > 0,
            c.den > 0,
            d.den > 0,
            x1.den == (2 * w.den) * mn.den;
    lemma_eqv_add_compat_right(d, x1, c);
    let dc = q_add(d, c);
    assert(dc.num * p.den == p.num * dc.den) by (nonlinear_arith)
        requires
            dc.num == d.num * c.den + c.num * d.den,
            dc.den == d.den * c.den,
            d.num == p.num * c.den - c.num * p.den,
            d.den == p.den * c.den;
    assert(dc.den > 0) by (nonlinear_arith)
        requires
            d.den > 0,
            c.den > 0,
            dc.den == d.den * c.den;
    lemma_eqv_trans_raw(out.num, out.den, outp.num, outp.den, dc.num, dc.den);
    lemma_eqv_trans_raw(out.num, out.den, dc.num, dc.den, p.num, p.den);
}

/// Addition of fractions is associative, componentwise.
proof fn lemma_add_assoc_q(x: Q, y: Q, z: Q)
    ensures
        q_add(q_add(x, y), z) == q_add(x, q_add(y, z)),
{
    lemma_distrib(x.num * y.den, y.num * x.den, z.den);
    lemma_distrib(y.num * z.den, z.num * y.den, x.den);
    lemma_assoc3(x.num, y.den, z.den);
    lemma_swap3(y.num, x.den, z.den);
    lemma_comm(x.den, y.den);
    lemma_assoc3(z.num, y.den, x.den);
    lemma_swap3(z.num, y.den, x.den);
    lemma_assoc3(x.den, y.den, z.den);
    assert(z.num * (x.den * y.den) == (z.num * y.den) * x.den) by (nonlinear_arith);
    assert(q_add(q_add(x, y), z).num == q_add(x, q_add(y, z)).num);
    assert(q_add(q_add(x, y), z).den == q_add(x, q_add(y, z)).den);
}

/// Exchanging the last two of three factors.
proof fn lemma_swap3(x: int, y: int, z: int)
    ensures
        (x * y) * z == (x * z) * y,
{
    assert((x * y) * z == (x * z) * y) by (nonlinear_arith);
}

/// Addition of fractions is commutative, componentwise.
proof fn lemma_add_comm_q(x: Q, y: Q)
    ensures
        q_add(x, y) == q_add(y, x),
{
    lemma_comm(x.den, y.den);
}

/// Equivalence is a congruence for addition in the second argument.
proof fn lemma_eqv_add_compat_right(a: Q, b: Q, c: Q)
    requires
        q_eqv(b, c),
    ensures
        q_eqv(q_add(a, b), q_add(a, c)),
{
    lemma_add_comm_q(a, b);
    lemma_add_comm_q(a, c);
    lemma_eqv_add_compat(b, c, a);
}

/// Equivalence is a congruence for addition in the first argument.
proof fn lemma_eqv_add_compat(a: Q, b: Q, c: Q)
    requires
        q_eqv(a, b),
    ensures
        q_eqv(q_add(a, c), q_add(b, c)),
{
    let p1 = a.num * c.den;
    let p2 = c.num * a.den;
    let q1 = b.den * c.den;
    let p3 = b.num * c.den;
    let p4 = c.num * b.den;
    let q2 = a.den * c.den;
    lemma_distrib(p1, p2, q1);
    lemma_distrib(p3, p4, q2);
    lemma_assoc4(a.num, c.den, b.den, c.den);
    lemma_assoc4(b.num, c.den, a.den, c.den);
    lemma_assoc4(c.num, a.den, b.den, c.den);
    lemma_assoc4(c.num, b.den, a.den, c.den);
    assert((c.num * b.den) * (a.den * c.den) == (c.num * a.den) * (b.den * c.den));
    assert((a.num * b.den) * (c.den * c.den) == (b.num * a.den) * (c.den * c.den));
    assert((p1 + p2) * q1 == (p3 + p4) * q2);
}

/// Equivalence of fractions is transitive when the middle denominator is
/// positive.
proof fn lemma_eqv_trans_raw(an: int, ad: int, bn: int, bd: int, cn: int, cd: int)
    requires
        an * bd == bn * ad,
        bn * cd == cn * bd,
        bd > 0,
    ensures
        an * cd == cn * ad,
{
    assert(bd * (an * cd - cn * ad) == (an * bd) * cd - (cn * bd) * ad) by (nonlinear_arith);
    assert((an * bd) * cd == (bn * ad) * cd) by (nonlinear_arith)
        requires
            an * bd == bn * ad;
    assert((bn * ad) * cd == (bn * cd) * ad) by (nonlinear_arith);
    assert((bn * cd) * ad == (cn * bd) * ad) by (nonlinear_arith)
        requires
            bn * cd == cn * bd;
    assert(an * cd == cn * ad) by (nonlinear_arith)
        requires
            bd > 0,
            bd * (an * cd - cn * ad) == 0;
}

/// Law (screen ↔ world round trip): for any world point, projecting it to
/// clip space, flipping into normalized screen coordinates and mapping back
/// through `screen_to_world` reproduces the point exactly — when the axes
/// are scaled independently, or when the view rectangle's aspect already
/// matches the viewport so that preserving the ratio letterboxes nothing.
pub proof fn lemma_screen_world_round_trip(p: QPoint, rect: QRect, ratio: Q, preserve: bool)
    requires
        q_wf(p.x),
        q_wf(p.y),
        q_wf(rect.min.x),
        q_wf(rect.min.y),
        q_wf(rect.max.x),
        q_wf(rect.max.y),
        q_wf(ratio),
        q_lt(q_zero(), q_rect_w(rect)),
        q_lt(q_zero(), q_rect_h(rect)),
        q_lt(q_zero(), ratio),
        preserve ==> q_eqv(q_rect_w(rect), q_mul(ratio, q_rect_h(rect))),
    ensures
        q_eqv(
            q_screen_to_world(
                q_clip_to_screen(q_world_to_clip(p, rect, ratio, preserve)),
                rect,
                ratio,
                preserve,
            ).x,
            p.x,
        ),
        q_eqv(
            q_screen_to_world(
                q_clip_to_screen(q_world_to_clip(p, rect, ratio, preserve)),
                rect,
                ratio,
                preserve,
            ).y,
            p.y,
        ),
{
    let w = q_rect_w(rect);
    let h = q_rect_h(rect);
    assert(h.num > 0 && h.den > 0 && w.num > 0 && w.den > 0) by (nonlinear_arith)
        requires
            q_lt(q_zero(), w),
            q_lt(q_zero(), h),
            w.den == rect.max.x.den * rect.min.x.den,
            h.den == rect.max.y.den * rect.min.y.den,
            rect.min.x.den > 0,
            rect.max.x.den > 0,
            rect.min.y.den > 0,
            rect.max.y.den > 0;
    let s1 = q_view_scale(rect, ratio, preserve, q_one());
    let s2 = q_view_scale(rect, ratio, preserve, q_int(2));
    lemma_view_scale_positive(rect, ratio, preserve, q_one());
    lemma_view_scale_doubles(rect, ratio, preserve);
    lemma_screen_scale_inverse(rect, ratio, preserve);
    // x axis
    lemma_axis_round_trip(p.x, rect.min.x, rect.max.x, s1.x);
    // y axis: `1 - (1 - clip)/2` is the same fraction as `(clip + 1)/2`.
    let clip_y = q_world_to_clip(p, rect, ratio, preserve).y;
    let screen_y = q_clip_to_screen(q_world_to_clip(p, rect, ratio, preserve)).y;
    assert(q_sub(q_one(), screen_y) == q_half(q_add(clip_y, q_one())));
    lemma_axis_round_trip(p.y, rect.min.y, rect.max.y, s1.y);
}

/// Law (aspect preservation never crops): with `preserve_ratio`, every
/// corner of the view rectangle projects inside the clip square
/// `[-1, 1] x [-1, 1]` — the tighter axis drives the scale, so the
/// rectangle is letterboxed, never cut. The vertical scale is the
/// horizontal scale times the viewport ratio.
pub proof fn lemma_preserve_ratio_fits(rect: QRect, ratio: Q, corner: QPoint)
    requires
        q_wf(rect.min.x),
        q_wf(rect.min.y),
        q_wf(rect.max.x),
        q_wf(rect.max.y),
        q_wf(ratio),
        q_lt(q_zero(), q_rect_w(rect)),
        q_lt(q_zero(), q_rect_h(rect)),
        q_lt(q_zero(), ratio),
        corner.x == rect.min.x || corner.x == rect.max.x,
        corner.y == rect.min.y || corner.y == rect.max.y,
    ensures
        q_le(q_neg(q_one()), q_world_to_clip(corner, rect, ratio, true).x),
        q_le(q_world_to_clip(corner, rect, ratio, true).x, q_one()),
        q_le(q_neg(q_one()), q_world_to_clip(corner, rect, ratio, true).y),
        q_le(q_world_to_clip(corner, rect, ratio, true).y, q_one()),
        q_view_scale(rect, ratio, true, q_int(2)).y == q_mul(
            ratio,
            q_view_scale(rect, ratio, true, q_int(2)).x,
        ),
{
    let w = q_rect_w(rect);
    let h = q_rect_h(rect);
    let rh = q_mul(ratio, h);
    assert(h.num > 0 && h.den > 0 && w.num > 0 && w.den > 0) by (nonlinear_arith)
        requires
            q_lt(q_zero(), w),
            q_lt(q_zero(), h),
            w.den == rect.max.x.den * rect.min.x.den,
            h.den == rect.max.y.den * rect.min.y.den,
            rect.min.x.den > 0,
            rect.max.x.den > 0,
            rect.min.y.den > 0,
            rect.max.y.den > 0;
    lemma_view_scale_positive(rect, ratio, true, q_int(2));
    let s = q_view_scale(rect, ratio, true, q_int(2));
    let sx2 = q_div(q_int(2), w);
    let sy2 = q_div(q_int(2), rh);
    assert(rh.num > 0 && rh.den > 0) by (nonlinear_arith)
        requires
            rh.num == ratio.num * h.num,
            rh.den == ratio.den * h.den,
            ratio.num > 0,
            ratio.den > 0,
            h.num > 0,
            h.den > 0;
    // The chosen scale is below both axis limits.
    let sx2 = q_div(q_int(2), w);
    let sy2 = q_div(q_int(2), rh);
    if q_le(sx2, sy2) {
        assert(s.x == sx2);
        assert(s.x.num * w.num <= (2 * w.den) * s.x.den) by (nonlinear_arith)
            requires
                s.x.num == 2 * w.den,
                s.x.den == 1 * w.num;
        assert(s.x.num * rh.num <= (2 * rh.den) * s.x.den) by (nonlinear_arith)
            requires
                s.x == sx2,
                sx2.num == 2 * w.den,
                sx2.den == 1 * w.num,
                sy2.num == 2 * rh.den,
                sy2.den == 1 * rh.num,
                sx2.num * sy2.den <= sy2.num * sx2.den;
    } else {
        assert(s.x == sy2);
        assert(s.x.num * rh.num <= (2 * rh.den) * s.x.den) by (nonlinear_arith)
            requires
                s.x.num == 2 * rh.den,
                s.x.den == 1 * rh.num;
        assert(s.x.num * w.num <= (2 * w.den) * s.x.den) by (nonlinear_arith)
            requires
                s.x == sy2,
                sx2.num == 2 * w.den,
                sx2.den == 1 * w.num,
                sy2.num == 2 * rh.den,
                sy2.den == 1 * rh.num,
                sy2.num * sx2.den <= sx2.num * sy2.den;
    }
    // Horizontal bound.
    let cx = q_rect_center_x(rect);
    let dx = q_sub(corner.x, cx);
    assert(cx.den > 0 && dx.den > 0) by (nonlinear_arith)
        requires
            rect.min.x.den > 0,
            rect.max.x.den > 0,
            corner.x.den > 0,
            cx.den == 2 * (rect.min.x.den * rect.max.x.den),
            dx.den == corner.x.den * cx.den;
    if corner.x == rect.min.x {
        assert(2 * dx.num * w.den == -(w.num * dx.den)) by (nonlinear_arith)
            requires
                w.num == rect.max.x.num * rect.min.x.den - rect.min.x.num * rect.max.x.den,
                w.den == rect.max.x.den * rect.min.x.den,
                cx.num == rect.min.x.num * rect.max.x.den + rect.max.x.num * rect.min.x.den,
                cx.den == 2 * (rect.min.x.den * rect.max.x.den),
                dx.num == rect.min.x.num * cx.den - cx.num * rect.min.x.den,
                dx.den == rect.min.x.den * cx.den;
    } else {
        assert(2 * dx.num * w.den == w.num * dx.den) by (nonlinear_arith)
            requires
                w.num == rect.max.x.num * rect.min.x.den - rect.min.x.num * rect.max.x.den,
                w.den == rect.max.x.den * rect.min.x.den,
                cx.num == rect.min.x.num * rect.max.x.den + rect.max.x.num * rect.min.x.den,
                cx.den == 2 * (rect.min.x.den * rect.max.x.den),
                dx.num == rect.max.x.num * cx.den - cx.num * rect.max.x.den,
                dx.den == rect.max.x.den * cx.den;
    }
    lemma_clip_bound_raw(dx.num, dx.den, s.x.num, s.x.den, w.num, w.den);
    // Vertical bound: the vertical scale respects the vertical axis limit.
    let cy = q_rect_center_y(rect);
    let dy = q_sub(corner.y, cy);
    assert(cy.den > 0 && dy.den > 0) by (nonlinear_arith)
        requires
            rect.min.y.den > 0,
            rect.max.y.den > 0,
            corner.y.den > 0,
            cy.den == 2 * (rect.min.y.den * rect.max.y.den),
            dy.den == corner.y.den * cy.den;
    assert(s.y.num * h.num <= (2 * h.den) * s.y.den) by (nonlinear_arith)
        requires
            s.y.num == ratio.num * s.x.num,
            s.y.den == ratio.den * s.x.den,
            s.x.num * rh.num <= (2 * rh.den) * s.x.den,
            rh.num == ratio.num * h.num,
            rh.den == ratio.den * h.den,
            ratio.num > 0,
            ratio.den > 0,
            s.x.num > 0,
            s.x.den > 0,
            h.num > 0,
            h.den > 0;
    if corner.y == rect.min.y {
        assert(2 * dy.num * h.den == -(h.num * dy.den)) by (nonlinear_arith)
            requires
                h.num == rect.max.y.num * rect.min.y.den - rect.min.y.num * rect.max.y.den,
                h.den == rect.max.y.den * rect.min.y.den,
                cy.num == rect.min.y.num * rect.max.y.den + rect.max.y.num * rect.min.y.den,
                cy.den == 2 * (rect.min.y.den * rect.max.y.den),
                dy.num == rect.min.y.num * cy.den - cy.num * rect.min.y.den,
                dy.den == rect.min.y.den * cy.den;
    } else {
        assert(2 * dy.num * h.den == h.num * dy.den) by (nonlinear_arith)
            requires
                h.num == rect.max.y.num * rect.min.y.den - rect.min.y.num * rect.max.y.den,
                h.den == rect.max.y.den * rect.min.y.den,
                cy.num == rect.min.y.num * rect.max.y.den + rect.max.y.num * rect.min.y.den,
                cy.den == 2 * (rect.min.y.den * rect.max.y.den),
                dy.num == rect.max.y.num * cy.den - cy.num * rect.max.y.den,
                dy.den == rect.max.y.den * cy.den;
    }
    lemma_clip_bound_raw(dy.num, dy.den, s.y.num, s.y.den, h.num, h.den);
}

/// A coordinate half an extent away from the center, scaled by at most
/// `2 / extent`, stays within one unit of the origin.
proof fn lemma_clip_bound_raw(dn: int, dd: int, sn: int, sd: int, wn: int, wd: int)
    requires
        dd > 0,
        sd > 0,
        sn > 0,
        wn > 0,
        wd > 0,
        2 * dn * wd == wn * dd || 2 * dn * wd == -(wn * dd),
        sn * wn <= (2 * wd) * sd,
    ensures
        -(dd * sd) <= dn * sn,
        dn * sn <= dd * sd,
        (-1) * (dd * sd) <= (dn * sn) * 1,
        (dn * sn) * 1 <= 1 * (dd * sd),
{
    assert(-(dd * sd) <= dn * sn && dn * sn <= dd * sd) by (nonlinear_arith)
        requires
            dd > 0,
            sd > 0,
            sn > 0,
            wn > 0,
            wd > 0,
            2 * dn * wd == wn * dd || 2 * dn * wd == -(wn * dd),
            sn * wn <= (2 * wd) * sd;
    assert((-1) * (dd * sd) == -(dd * sd)) by (nonlinear_arith);
    assert((dn * sn) * 1 == dn * sn) by (nonlinear_arith);
}

} // verus!
