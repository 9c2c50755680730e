//! Points, rectangles, colors, interpolation and angle arithmetic.
//!
//! Rotations are measured in turns: one full revolution is the scalar `1`,
//! and a normalized rotation lies in `[0, 1)`. Wrapping a rotation is then
//! exact modular arithmetic on the numerator, see [`wrap_turn`].

use vstd::arithmetic::div_mod::{
    lemma_fundamental_div_mod, lemma_mod_bound, lemma_mod_multiples_basic,
};
use vstd::prelude::*;

use crate::frac::{
    frac_of, lerp_in_range, q_add, q_eqv, q_half, q_in_range, q_int, q_le, q_lerp, q_lt, q_mul,
    q_neg, q_one, q_sub, q_wf, q_zero, Frac, Q,
};

verus! {

/// The smaller of two fractions; on equal values the first operand is kept.
pub open spec fn q_min(a: Q, b: Q) -> Q {
    if q_lt(b, a) {
        b
    } else {
        a
    }
}

/// The larger of two fractions; on equal values the first operand is kept.
pub open spec fn q_max(a: Q, b: Q) -> Q {
    if q_lt(a, b) {
        b
    } else {
        a
    }
}

// ---------------------------------------------------------------------------
// Angles
// ---------------------------------------------------------------------------

/// `a` reduced modulo one turn: the numerator is replaced by its Euclidean
/// remainder against the denominator, so the value lands in `[0, 1)`.
pub open spec fn q_wrap_turn(a: Q) -> Q {
    Q { num: a.num % a.den, den: a.den }
}

/// A normalized rotation: a representable fraction in `[0, 1)` turns.
pub open spec fn q_angle_wf(a: Q) -> bool {
    0 <= a.num < a.den <= 0x7fff_ffff_ffff_ffff
}

/// `a` and `b` differ by a whole number of turns.
pub open spec fn q_congruent_mod_one(a: Q, b: Q) -> bool {
    (a.num * b.den - b.num * a.den) % (a.den * b.den) == 0
}

/// The signed shortest angular distance from `a` to `b`, in `(-1/2, 1/2]`
/// turns: the wrapped difference, pulled back by a whole turn when it
/// exceeds half a turn.
pub open spec fn q_short_angle(a: Q, b: Q) -> Q {
    let d = q_wrap_turn(q_sub(b, a));
    if q_le(d, q_half(q_one())) {
        d
    } else {
        Q { num: d.num - d.den, den: d.den }
    }
}

/// Shortest-path angular interpolation: `a + short_distance(a, b) * t`.
pub open spec fn q_lerp_angle(a: Q, b: Q, t: Q) -> Q {
    q_add(a, q_mul(q_short_angle(a, b), t))
}

/// Everything `lerp_angle` computes stays representable.
pub open spec fn lerp_angle_in_range(a: Q, b: Q, t: Q) -> bool {
    &&& q_in_range(q_sub(b, a))
    &&& q_in_range(q_mul(q_short_angle(a, b), t))
    &&& q_in_range(q_lerp_angle(a, b, t))
}

/// Wrap a rotation into `[0, 1)` turns.
pub fn wrap_turn(a: Frac) -> (r: Frac)
    requires
        a.wf(),
    ensures
        r@ == q_wrap_turn(a@),
        r.wf(),
        q_angle_wf(r@),
{
    proof {
        lemma_mod_bound(a.num as int, a.den as int);
    }
    let m = a.num.checked_rem_euclid(a.den).unwrap();
    Frac { num: m, den: a.den }
}

/// Law: wrapping keeps the value inside one turn and only removes whole
/// turns — the wrapped value is congruent to the original modulo one turn.
pub proof fn lemma_wrap_turn_congruent(a: Q)
    requires
        q_wf(a),
    ensures
        0 <= q_wrap_turn(a).num < q_wrap_turn(a).den,
        q_congruent_mod_one(q_wrap_turn(a), a),
{
    lemma_mod_bound(a.num, a.den);
    lemma_fundamental_div_mod(a.num, a.den);
    assert(a.den * a.den > 0) by (nonlinear_arith)
        requires
            a.den > 0;
    let q = a.num / a.den;
    let w = q_wrap_turn(a);
    assert(w.num - a.num == -q * a.den) by (nonlinear_arith)
        requires
            a.num == a.den * q + w.num,
            w.num == a.num % a.den;
    assert(w.num * a.den - a.num * a.den == (-q) * (a.den * a.den)) by (nonlinear_arith)
        requires
            w.num - a.num == -q * a.den;
    lemma_mod_multiples_basic(-q, a.den * a.den);
}

/// The signed shortest angular distance from `a` to `b`, in turns.
pub fn short_angle_distance(a: Frac, b: Frac) -> (r: Frac)
    requires
        a.wf(),
        b.wf(),
        q_in_range(q_sub(b@, a@)),
    ensures
        r@ == q_short_angle(a@, b@),
        r.wf(),
{
    let d = wrap_turn(b.sub(a));
    let half = Frac::new(1, 2);
    if d.le(half) {
        d
    } else {
        Frac { num: d.num - d.den, den: d.den }
    }
}

/// Law: the shortest angular distance lies in `(-1/2, 1/2]` turns and is
/// congruent to the plain difference `b - a` modulo one turn, so it reaches
/// `b` from `a` by the short way around.
pub proof fn lemma_short_angle_distance_props(a: Q, b: Q)
    requires
        q_wf(a),
        q_wf(b),
    ensures
        q_lt(q_neg(q_half(q_one())), q_short_angle(a, b)),
        q_le(q_short_angle(a, b), q_half(q_one())),
        q_congruent_mod_one(q_short_angle(a, b), q_sub(b, a)),
{
    let diff = q_sub(b, a);
    assert(diff.den > 0) by (nonlinear_arith)
        requires
            a.den > 0,
            b.den > 0,
            diff.den == b.den * a.den;
    let d = q_wrap_turn(diff);
    lemma_wrap_turn_congruent(diff);
    assert(d.den * diff.den > 0) by (nonlinear_arith)
        requires
            d.den > 0,
            diff.den > 0;
    let s = q_short_angle(a, b);
    assert(0 <= d.num < d.den);
    if q_le(d, q_half(q_one())) {
        assert(s == d);
        assert((-1) * d.den < d.num * 2);
        assert(q_lt(q_neg(q_half(q_one())), d));
    } else {
        assert(s == (Q { num: d.num - d.den, den: d.den }));
        assert((-1) * s.den < s.num * 2);
        assert(s.num * 2 <= 1 * s.den);
        // Pulling back one whole turn keeps the congruence: the numerator
        // moves by exactly one denominator.
        assert(s.num * diff.den - diff.num * s.den == (d.num * diff.den - diff.num * d.den) + (-1)
            * (s.den * diff.den)) by (nonlinear_arith)
            requires
                s.num == d.num - d.den,
                s.den == d.den;
        lemma_mod_multiples_vanish_for(
            d.num * diff.den - diff.num * d.den,
            s.den * diff.den,
        );
    }
}

/// `(x - m) % m == x % m` stated for the one use above: adding a multiple of
/// the modulus does not change divisibility.
proof fn lemma_mod_multiples_vanish_for(x: int, m: int)
    requires
        m > 0,
        x % m == 0,
    ensures
        (x + (-1) * m) % m == 0,
{
    vstd::arithmetic::div_mod::lemma_mod_multiples_vanish(-1, x, m);
    assert((-1) * m + x == x + (-1) * m);
}

/// Shortest-path angular interpolation, `a + short_distance(a, b) * t`.
/// The result is not re-wrapped; see `Transform::lerp` for the wrapped form.
pub fn lerp_angle(a: Frac, b: Frac, t: Frac) -> (r: Frac)
    requires
        a.wf(),
        b.wf(),
        t.wf(),
        lerp_angle_in_range(a@, b@, t@),
    ensures
        r@ == q_lerp_angle(a@, b@, t@),
        r.wf(),
{
    let s = short_angle_distance(a, b);
    a.add(s.mul(t))
}

// ---------------------------------------------------------------------------
// Interpolation
// ---------------------------------------------------------------------------

/// Linearly interpolateable: `lerp(a, b, t)` stands at `a` for `t == 0` and
/// at `b` for `t == 1`.
pub trait Lerp: Sized {
    /// The inputs for which the interpolation is representable.
    spec fn lerp_ok(a: &Self, b: &Self, t: Frac) -> bool;

    /// The exact interpolated value.
    spec fn lerp_spec(a: &Self, b: &Self, t: Frac) -> Self;

    /// Interpolate between `a` (at `t == 0`) and `b` (at `t == 1`).
    fn lerp(a: &Self, b: &Self, t: Frac) -> (r: Self)
        requires
            t.wf(),
            Self::lerp_ok(a, b, t),
        ensures
            r == Self::lerp_spec(a, b, t),
    ;
}

impl Lerp for Frac {
    open spec fn lerp_ok(a: &Frac, b: &Frac, t: Frac) -> bool {
        a.wf() && b.wf() && lerp_in_range(a@, b@, t@)
    }

    open spec fn lerp_spec(a: &Frac, b: &Frac, t: Frac) -> Frac {
        frac_of(q_lerp(a@, b@, t@))
    }

    fn lerp(a: &Frac, b: &Frac, t: Frac) -> (r: Frac) {
        proof {
            assert(<Frac as Lerp>::lerp_ok(a, b, t));
            assert(lerp_in_range(a@, b@, t@));
        }
        let mt = Frac::one().sub(t);
        let r = a.mul(mt).add(b.mul(t));
        proof {
            assert(r == frac_of(q_lerp(a@, b@, t@)));
            assert(<Frac as Lerp>::lerp_spec(a, b, t) == frac_of(q_lerp(a@, b@, t@)));
        }
        r
    }
}

// ---------------------------------------------------------------------------
// Points
// ---------------------------------------------------------------------------

/// Mathematical value of a [`Point`].
pub struct QPoint {
    pub x: Q,
    pub y: Q,
}

/// A point (or 2-vector) in world space.
#[derive(Clone, Copy, Debug, PartialEq, Eq, Structural)]
pub struct Point {
    pub x: Frac,
    pub y: Frac,
}

impl View for Point {
    type V = QPoint;

    open spec fn view(&self) -> QPoint {
        QPoint { x: self.x@, y: self.y@ }
    }
}

/// The `Point` whose components are those of `q`; meaningful only when both
/// components are representable.
pub open spec fn point_of(q: QPoint) -> Point {
    Point { x: frac_of(q.x), y: frac_of(q.y) }
}

/// Componentwise interpolation of two point values.
pub open spec fn qp_lerp(a: QPoint, b: QPoint, t: Q) -> QPoint {
    QPoint { x: q_lerp(a.x, b.x, t), y: q_lerp(a.y, b.y, t) }
}

impl Point {
    pub open spec fn wf(self) -> bool {
        self.x.wf() && self.y.wf()
    }

    pub fn new(x: Frac, y: Frac) -> (r: Point)
        ensures
            r == (Point { x, y }),
    {
        Point { x, y }
    }

    pub fn origin() -> (r: Point)
        ensures
            r@.x == q_zero(),
            r@.y == q_zero(),
            r.wf(),
    {
        Point { x: Frac::zero(), y: Frac::zero() }
    }

    pub fn add(self, other: Point) -> (r: Point)
        requires
            self.wf(),
            other.wf(),
            q_in_range(q_add(self@.x, other@.x)),
            q_in_range(q_add(self@.y, other@.y)),
        ensures
            r@.x == q_add(self@.x, other@.x),
            r@.y == q_add(self@.y, other@.y),
            r.wf(),
    {
        Point { x: self.x.add(other.x), y: self.y.add(other.y) }
    }

    pub fn sub(self, other: Point) -> (r: Point)
        requires
            self.wf(),
            other.wf(),
            q_in_range(q_sub(self@.x, other@.x)),
            q_in_range(q_sub(self@.y, other@.y)),
        ensures
            r@.x == q_sub(self@.x, other@.x),
            r@.y == q_sub(self@.y, other@.y),
            r.wf(),
    {
        Point { x: self.x.sub(other.x), y: self.y.sub(other.y) }
    }
}

impl Lerp for Point {
    open spec fn lerp_ok(a: &Point, b: &Point, t: Frac) -> bool {
        &&& a.wf()
        &&& b.wf()
        &&& lerp_in_range(a@.x, b@.x, t@)
        &&& lerp_in_range(a@.y, b@.y, t@)
    }

    open spec fn lerp_spec(a: &Point, b: &Point, t: Frac) -> Point {
        point_of(qp_lerp(a@, b@, t@))
    }

    fn lerp(a: &Point, b: &Point, t: Frac) -> (r: Point) {
        Point { x: Lerp::lerp(&a.x, &b.x, t), y: Lerp::lerp(&a.y, &b.y, t) }
    }
}

// ---------------------------------------------------------------------------
// Colors
// ---------------------------------------------------------------------------

/// Mathematical value of a [`Color`].
pub struct QColor {
    pub r: Q,
    pub g: Q,
    pub b: Q,
    pub a: Q,
}

/// An RGBA color; components conventionally lie in `[0, 1]`.
#[derive(Clone, Copy, Debug, PartialEq, Eq, Structural)]
pub struct Color {
    pub r: Frac,
    pub g: Frac,
    pub b: Frac,
    pub a: Frac,
}

impl View for Color {
    type V = QColor;

    open spec fn view(&self) -> QColor {
        QColor { r: self.r@, g: self.g@, b: self.b@, a: self.a@ }
    }
}

/// Componentwise interpolation of two color values.
pub open spec fn qc_lerp(a: QColor, b: QColor, t: Q) -> QColor {
    QColor {
        r: q_lerp(a.r, b.r, t),
        g: q_lerp(a.g, b.g, t),
        b: q_lerp(a.b, b.b, t),
        a: q_lerp(a.a, b.a, t),
    }
}

/// The `Color` whose components are those of `q`; meaningful only when all
/// components are representable.
pub open spec fn color_of(q: QColor) -> Color {
    Color { r: frac_of(q.r), g: frac_of(q.g), b: frac_of(q.b), a: frac_of(q.a) }
}

impl Color {
    pub open spec fn wf(self) -> bool {
        self.r.wf() && self.g.wf() && self.b.wf() && self.a.wf()
    }

    pub fn new(r: Frac, g: Frac, b: Frac, a: Frac) -> (c: Color)
        ensures
            c == (Color { r, g, b, a }),
    {
        Color { r, g, b, a }
    }
}

impl Lerp for Color {
    open spec fn lerp_ok(a: &Color, b: &Color, t: Frac) -> bool {
        &&& a.wf()
        &&& b.wf()
        &&& lerp_in_range(a@.r, b@.r, t@)
        &&& lerp_in_range(a@.g, b@.g, t@)
        &&& lerp_in_range(a@.b, b@.b, t@)
        &&& lerp_in_range(a@.a, b@.a, t@)
    }

    open spec fn lerp_spec(a: &Color, b: &Color, t: Frac) -> Color {
        color_of(qc_lerp(a@, b@, t@))
    }

    fn lerp(a: &Color, b: &Color, t: Frac) -> (r: Color) {
        Color {
            r: Lerp::lerp(&a.r, &b.r, t),
            g: Lerp::lerp(&a.g, &b.g, t),
            b: Lerp::lerp(&a.b, &b.b, t),
            a: Lerp::lerp(&a.a, &b.a, t),
        }
    }
}

// ---------------------------------------------------------------------------
// Rectangles
// ---------------------------------------------------------------------------

/// Mathematical value of a [`Rect`].
pub struct QRect {
    pub min: QPoint,
    pub max: QPoint,
}

/// An axis-aligned rectangle given by two corner points.
#[derive(Clone, Copy, Debug, PartialEq, Eq, Structural)]
pub struct Rect {
    pub min: Point,
    pub max: Point,
}

impl View for Rect {
    type V = QRect;

    open spec fn view(&self) -> QRect {
        QRect { min: self.min@, max: self.max@ }
    }
}

/// The smallest rectangle containing every point of a non-empty sequence;
/// folded left to right, keeping the earlier corner on ties.
pub open spec fn q_bounds(s: Seq<QPoint>) -> QRect
    decreases s.len(),
{
    if s.len() <= 1 {
        QRect { min: s[0], max: s[0] }
    } else {
        let r = q_bounds(s.drop_last());
        let p = s.last();
        QRect {
            min: QPoint { x: q_min(r.min.x, p.x), y: q_min(r.min.y, p.y) },
            max: QPoint { x: q_max(r.max.x, p.x), y: q_max(r.max.y, p.y) },
        }
    }
}

/// Componentwise interpolation of two rectangle values.
pub open spec fn qr_lerp(a: QRect, b: QRect, t: Q) -> QRect {
    QRect { min: qp_lerp(a.min, b.min, t), max: qp_lerp(a.max, b.max, t) }
}

impl Rect {
    pub open spec fn wf(self) -> bool {
        self.min.wf() && self.max.wf()
    }

    /// Create a rectangle from two points; no check is made that `min` is
    /// actually below `max`. To cover arbitrary points use `from_bounds`.
    pub fn new(min: Point, max: Point) -> (r: Rect)
        ensures
            r == (Rect { min, max }),
    {
        Rect { min, max }
    }

    /// The smallest rectangle that contains all the given points.
    pub fn from_bounds(points: &Vec<Point>) -> (r: Rect)
        requires
            points@.len() > 0,
            forall|i: int| 0 <= i < points@.len() ==> (#[trigger] points@[i]).wf(),
        ensures
            r@ == q_bounds(points@.map_values(|p: Point| p@)),
            r.wf(),
    {
        let ghost qs = points@.map_values(|p: Point| p@);
        let mut min_x = points[0].x;
        let mut min_y = points[0].y;
        let mut max_x = points[0].x;
        let mut max_y = points[0].y;
        let n = points.len();
        let mut i: usize = 1;
        proof {
            assert(qs.take(1) =~= seq![qs[0]]);
        }
        while i < n
            invariant
                1 <= i <= n,
                n == points@.len(),
                qs == points@.map_values(|p: Point| p@),
                forall|k: int| 0 <= k < points@.len() ==> (#[trigger] points@[k]).wf(),
                min_x.wf() && min_y.wf() && max_x.wf() && max_y.wf(),
                q_bounds(qs.take(i as int)) == (QRect {
                    min: QPoint { x: min_x@, y: min_y@ },
                    max: QPoint { x: max_x@, y: max_y@ },
                }),
            decreases n - i,
        {
            let p = points[i];
            if p.x.lt(min_x) {
                min_x = p.x;
            }
            if p.y.lt(min_y) {
                min_y = p.y;
            }
            if max_x.lt(p.x) {
                max_x = p.x;
            }
            if max_y.lt(p.y) {
                max_y = p.y;
            }
            proof {
                assert(qs.take(i + 1).drop_last() =~= qs.take(i as int));
                assert(qs.take(i + 1).last() == qs[i as int]);
            }
            i = i + 1;
        }
        proof {
            assert(qs.take(n as int) =~= qs);
        }
        Rect {
            min: Point { x: min_x, y: min_y },
            max: Point { x: max_x, y: max_y },
        }
    }

    /// Enlarge the rectangle just enough to contain `point`.
    pub fn grow_to_fit(&mut self, point: &Point)
        requires
            old(self).wf(),
            point.wf(),
        ensures
            final(self)@.min.x == q_min(old(self)@.min.x, point@.x),
            final(self)@.min.y == q_min(old(self)@.min.y, point@.y),
            final(self)@.max.x == q_max(old(self)@.max.x, point@.x),
            final(self)@.max.y == q_max(old(self)@.max.y, point@.y),
            final(self).wf(),
    {
        if point.x.lt(self.min.x) {
            self.min.x = point.x;
        }
        if point.y.lt(self.min.y) {
            self.min.y = point.y;
        }
        if self.max.x.lt(point.x) {
            self.max.x = point.x;
        }
        if self.max.y.lt(point.y) {
            self.max.y = point.y;
        }
    }

    pub fn min(&self) -> (r: Point)
        ensures
            r == self.min,
    {
        self.min
    }

    pub fn min_x(&self) -> (r: Frac)
        ensures
            r == self.min.x,
    {
        self.min.x
    }

    pub fn min_y(&self) -> (r: Frac)
        ensures
            r == self.min.y,
    {
        self.min.y
    }

    pub fn max(&self) -> (r: Point)
        ensures
            r == self.max,
    {
        self.max
    }

    pub fn max_x(&self) -> (r: Frac)
        ensures
            r == self.max.x,
    {
        self.max.x
    }

    pub fn max_y(&self) -> (r: Frac)
        ensures
            r == self.max.y,
    {
        self.max.y
    }

    pub fn width(&self) -> (r: Frac)
        requires
            self.wf(),
            q_in_range(q_sub(self@.max.x, self@.min.x)),
        ensures
            r@ == q_sub(self@.max.x, self@.min.x),
            r.wf(),
    {
        self.max.x.sub(self.min.x)
    }

    pub fn height(&self) -> (r: Frac)
        requires
            self.wf(),
            q_in_range(q_sub(self@.max.y, self@.min.y)),
        ensures
            r@ == q_sub(self@.max.y, self@.min.y),
            r.wf(),
    {
        self.max.y.sub(self.min.y)
    }

    /// The midpoint of the rectangle.
    pub fn center(&self) -> (r: Point)
        requires
            self.wf(),
            q_in_range(q_add(self@.min.x, self@.max.x)),
            q_in_range(q_half(q_add(self@.min.x, self@.max.x))),
            q_in_range(q_add(self@.min.y, self@.max.y)),
            q_in_range(q_half(q_add(self@.min.y, self@.max.y))),
        ensures
            r@.x == q_half(q_add(self@.min.x, self@.max.x)),
            r@.y == q_half(q_add(self@.min.y, self@.max.y)),
            r.wf(),
    {
        Point { x: self.min.x.add(self.max.x).half(), y: self.min.y.add(self.max.y).half() }
    }

    /// A point whose `x` is the width and whose `y` is the height.
    pub fn size(&self) -> (r: Point)
        requires
            self.wf(),
            q_in_range(q_sub(self@.max.x, self@.min.x)),
            q_in_range(q_sub(self@.max.y, self@.min.y)),
        ensures
            r@.x == q_sub(self@.max.x, self@.min.x),
            r@.y == q_sub(self@.max.y, self@.min.y),
            r.wf(),
    {
        Point { x: self.width(), y: self.height() }
    }
}

/// Can be reduced to a set of corner points.
pub trait Boundable {
    /// The corner points, as mathematical values.
    spec fn bounds_spec(&self) -> Seq<QPoint>;

    /// The corner points.
    fn bounds(&self) -> (r: Vec<Point>)
        ensures
            r@.map_values(|p: Point| p@) == self.bounds_spec(),
    ;
}

impl Boundable for Rect {
    open spec fn bounds_spec(&self) -> Seq<QPoint> {
        seq![self@.min, self@.max]
    }

    fn bounds(&self) -> (r: Vec<Point>) {
        let r = vec![self.min, self.max];
        proof {
            assert(r@.map_values(|p: Point| p@) =~= self.bounds_spec());
        }
        r
    }
}

impl Lerp for Rect {
    open spec fn lerp_ok(a: &Rect, b: &Rect, t: Frac) -> bool {
        &&& Point::lerp_ok(&a.min, &b.min, t)
        &&& Point::lerp_ok(&a.max, &b.max, t)
    }

    open spec fn lerp_spec(a: &Rect, b: &Rect, t: Frac) -> Rect {
        Rect {
            min: Point::lerp_spec(&a.min, &b.min, t),
            max: Point::lerp_spec(&a.max, &b.max, t),
        }
    }

    fn lerp(a: &Rect, b: &Rect, t: Frac) -> (r: Rect) {
        Rect { min: Lerp::lerp(&a.min, &b.min, t), max: Lerp::lerp(&a.max, &b.max, t) }
    }
}

} // verus!
