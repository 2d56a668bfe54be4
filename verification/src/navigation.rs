//! The navigation transform.
//!
//! [`recompute`] turns the current rectangle plus a normalized pick point
//! `(px, py)` in the unit square and a zoom direction into the next
//! rectangle:
//!
//! 1. the picked plane point `m` is found by bilinear interpolation between
//!    the two corners with `(px, py)` as weights;
//! 2. both corners are translated by `m - c`, where `c` is the old center, so
//!    `m` becomes the new center (a rigid translation, the size unchanged);
//! 3. a padding of one eighth of the half-extent, signed by the zoom
//!    direction, moves each corner toward (zoom in) or away from (zoom out)
//!    the new center.
//!
//! Each new corner coordinate is therefore `m -/+ k * (b - a) / 16` along an
//! axis with corner coordinates `a` (upper left) and `b` (lower right), where
//! `k` is 7 for a zoom in and 9 for a zoom out; the extent scales by exactly
//! `k / 8`. The transform is a pure function of its arguments. When a
//! reduced result coordinate would leave the representable range the whole
//! transform yields `None` and no rectangle is produced.

use vstd::prelude::*;
use crate::rational::{
    lemma_abs_mul_bound, lemma_cancel_common_factor, lemma_mul_pos, lemma_norm_fraction_props,
    norm_fraction, normalize_fraction, rat_eq, Rat, COORD_BOUND,
};
use crate::rect::{extent_den, extent_num, midpoint_den, midpoint_num, ComplexRect, PlanePoint};

verus! {

/// Which way a navigation scales the rectangle.
#[derive(Clone, Copy, PartialEq, Eq, Structural, Debug)]
pub enum ZoomDirection {
    In,
    Out,
}

/// A normalized pick point: the position of the user interaction as a
/// fraction of the surface width and height, each coordinate in `[0, 1]`.
#[derive(Clone, Copy, PartialEq, Eq, Structural, Debug)]
pub struct PickPoint {
    pub px: Rat,
    pub py: Rat,
}

impl PickPoint {
    /// Both coordinates are well-formed fractions inside the unit interval.
    pub open spec fn wf(self) -> bool {
        &&& self.px.wf()
        &&& self.py.wf()
        &&& self.px.in_unit()
        &&& self.py.in_unit()
    }

    /// Runtime check for [`PickPoint::wf`].
    pub fn is_wf(&self) -> (r: bool)
        ensures
            r == self.wf(),
    {
        self.px.is_wf() && self.py.is_wf() && self.px.is_in_unit() && self.py.is_in_unit()
    }

    /// The center of the viewport, `(1/2, 1/2)`: the pick point of a pure
    /// keyboard zoom.
    pub fn viewport_center() -> (r: PickPoint)
        ensures
            r == spec_viewport_center(),
    {
        PickPoint { px: Rat { num: 1, den: 2 }, py: Rat { num: 1, den: 2 } }
    }
}

/// The pick point of a pure keyboard zoom, `(1/2, 1/2)`.
pub open spec fn spec_viewport_center() -> PickPoint {
    PickPoint { px: Rat { num: 1i64, den: 2i64 }, py: Rat { num: 1i64, den: 2i64 } }
}

/// One navigation: where the user picked and which way to zoom.
#[derive(Clone, Copy, PartialEq, Eq, Structural, Debug)]
pub struct NavigationRequest {
    pub pick: PickPoint,
    pub direction: ZoomDirection,
}

/// The new extent is `extent_ratio_eighths / 8` of the old extent: `7/8` for
/// a zoom in (one eighth of the half-extent removed from each side), `9/8`
/// for a zoom out.
pub open spec fn extent_ratio_eighths(direction: ZoomDirection) -> int {
    match direction {
        ZoomDirection::In => 7,
        ZoomDirection::Out => 9,
    }
}

/// Numerator of the picked plane point `m = (1 - p) * a + p * b` along one
/// axis, over [`pick_den`].
pub open spec fn pick_num(a: Rat, b: Rat, p: Rat) -> int {
    (p.den - p.num) * a.num * b.den + p.num * b.num * a.den
}

/// Denominator of the picked plane point along one axis.
pub open spec fn pick_den(a: Rat, b: Rat, p: Rat) -> int {
    p.den * a.den * b.den
}

/// Common denominator of both new corner coordinates along one axis.
pub open spec fn axis_den(a: Rat, b: Rat, p: Rat) -> int {
    16 * p.den * a.den * b.den
}

/// Numerator of the new upper-left coordinate, `m - k * (b - a) / 16`, over
/// [`axis_den`].
pub open spec fn axis_new_ul_num(a: Rat, b: Rat, p: Rat, direction: ZoomDirection) -> int {
    16 * pick_num(a, b, p) - extent_ratio_eighths(direction) * p.den * extent_num(a, b)
}

/// Numerator of the new lower-right coordinate, `m + k * (b - a) / 16`, over
/// [`axis_den`].
pub open spec fn axis_new_lr_num(a: Rat, b: Rat, p: Rat, direction: ZoomDirection) -> int {
    16 * pick_num(a, b, p) + extent_ratio_eighths(direction) * p.den * extent_num(a, b)
}

/// The navigation transform along one axis: the reduced new corner pair, or
/// `None` when a reduced coordinate leaves the representable range.
pub open spec fn spec_axis_recompute(a: Rat, b: Rat, p: Rat, direction: ZoomDirection) -> Option<
    (Rat, Rat),
> {
    let na = norm_fraction(axis_new_ul_num(a, b, p, direction), axis_den(a, b, p));
    let nb = norm_fraction(axis_new_lr_num(a, b, p, direction), axis_den(a, b, p));
    if na is Some && nb is Some {
        Some((na->Some_0, nb->Some_0))
    } else {
        None
    }
}

/// The navigation transform: the next rectangle computed from the current
/// one, a pick point and a zoom direction, or `None` when a reduced result
/// coordinate leaves the representable range.
pub open spec fn spec_recompute(
    current: ComplexRect,
    pick: PickPoint,
    direction: ZoomDirection,
) -> Option<ComplexRect> {
    let rx = spec_axis_recompute(
        current.upper_left.re,
        current.lower_right.re,
        pick.px,
        direction,
    );
    let ry = spec_axis_recompute(
        current.upper_left.im,
        current.lower_right.im,
        pick.py,
        direction,
    );
    if rx is Some && ry is Some {
        Some(
            ComplexRect {
                upper_left: PlanePoint { re: rx->Some_0.0, im: ry->Some_0.0 },
                lower_right: PlanePoint { re: rx->Some_0.1, im: ry->Some_0.1 },
            },
        )
    } else {
        None
    }
}

/// The navigation transform along one axis.
fn axis_recompute(a: Rat, b: Rat, p: Rat, direction: ZoomDirection) -> (r: Option<(Rat, Rat)>)
    requires
        a.wf(),
        b.wf(),
        p.wf(),
        p.in_unit(),
    ensures
        r == spec_axis_recompute(a, b, p, direction),
{
    let k: i128 = match direction {
        ZoomDirection::In => 7,
        ZoomDirection::Out => 9,
    };
    let an = a.num as i128;
    let ad = a.den as i128;
    let bn = b.num as i128;
    let bd = b.den as i128;
    let pn = p.num as i128;
    let pd = p.den as i128;
    proof {
        let bound: int = COORD_BOUND as int;
        lemma_abs_mul_bound(pd as int - pn as int, an as int, bound, bound);
        lemma_abs_mul_bound((pd - pn) as int * an as int, bd as int, bound * bound, bound);
        lemma_abs_mul_bound(pn as int, bn as int, bound, bound);
        lemma_abs_mul_bound(pn as int * bn as int, ad as int, bound * bound, bound);
        lemma_abs_mul_bound(bn as int, ad as int, bound, bound);
        lemma_abs_mul_bound(an as int, bd as int, bound, bound);
        lemma_abs_mul_bound(pd as int, ad as int, bound, bound);
        lemma_abs_mul_bound(pd as int * ad as int, bd as int, bound * bound, bound);
        lemma_mul_pos(pd as int, ad as int);
        lemma_mul_pos(pd as int * ad as int, bd as int);
    }
    let pick = (pd - pn) * an * bd + pn * bn * ad;
    let ext = bn * ad - an * bd;
    let den = 16 * (pd * ad * bd);
    proof {
        let bound: int = COORD_BOUND as int;
        lemma_abs_mul_bound(k as int, pd as int, 9, bound);
        lemma_abs_mul_bound(k as int * pd as int, ext as int, 9 * bound, 2 * bound * bound);
        assert(16 * ((pd * ad) as int * bd as int) == axis_den(a, b, p)) by (nonlinear_arith)
            requires
                pd == p.den as int,
                ad == a.den as int,
                bd == b.den as int,
        ;
    }
    let shift = k * pd * ext;
    let nua = 16 * pick - shift;
    let nlb = 16 * pick + shift;
    let ra = normalize_fraction(nua, den);
    let rb = normalize_fraction(nlb, den);
    match (ra, rb) {
        (Some(x), Some(y)) => Some((x, y)),
        _ => None,
    }
}

/// The navigation transform (see the module documentation). Returns exactly
/// [`spec_recompute`] of its arguments: a pure, deterministic function. The
/// result, when there is one, is again a well-formed rectangle.
pub fn recompute(current: &ComplexRect, pick: PickPoint, direction: ZoomDirection) -> (r: Option<
    ComplexRect,
>)
    requires
        current.wf(),
        pick.wf(),
    ensures
        r == spec_recompute(*current, pick, direction),
        r matches Some(next) ==> next.wf(),
{
    let rx = axis_recompute(current.upper_left.re, current.lower_right.re, pick.px, direction);
    let ry = axis_recompute(current.upper_left.im, current.lower_right.im, pick.py, direction);
    match (rx, ry) {
        (Some(x), Some(y)) => {
            let next = ComplexRect {
                upper_left: PlanePoint { re: x.0, im: y.0 },
                lower_right: PlanePoint { re: x.1, im: y.1 },
            };
            proof {
                lemma_recompute_preserves_wf(*current, pick, direction);
            }
            Some(next)
        },
        _ => None,
    }
}

/// Value preservation of the reduced corner pair along one axis: the reduced
/// coordinates denote exactly the closed-form fractions.
proof fn lemma_axis_values(a: Rat, b: Rat, p: Rat, direction: ZoomDirection)
    requires
        a.wf(),
        b.wf(),
        p.wf(),
    ensures
        axis_den(a, b, p) >= 1,
        spec_axis_recompute(a, b, p, direction) matches Some((na, nb)) ==> {
            &&& na.wf()
            &&& nb.wf()
            &&& na.num * axis_den(a, b, p) == axis_new_ul_num(a, b, p, direction) * na.den
            &&& nb.num * axis_den(a, b, p) == axis_new_lr_num(a, b, p, direction) * nb.den
        },
{
    lemma_mul_pos(p.den as int, a.den as int);
    lemma_mul_pos(p.den as int * a.den as int, b.den as int);
    assert(axis_den(a, b, p) >= 1) by (nonlinear_arith)
        requires
            p.den as int * a.den as int * b.den as int >= 1,
            axis_den(a, b, p) == 16 * p.den * a.den * b.den,
    ;
    lemma_norm_fraction_props(axis_new_ul_num(a, b, p, direction), axis_den(a, b, p));
    lemma_norm_fraction_props(axis_new_lr_num(a, b, p, direction), axis_den(a, b, p));
}

/// The two new corner coordinates along one axis stay distinct: the new
/// extent numerator is nonzero whenever the old corners were distinct.
proof fn lemma_axis_distinct(a: Rat, b: Rat, p: Rat, direction: ZoomDirection)
    requires
        a.wf(),
        b.wf(),
        p.wf(),
        !rat_eq(a, b),
        spec_axis_recompute(a, b, p, direction) is Some,
    ensures
        spec_axis_recompute(a, b, p, direction) matches Some((na, nb)) ==> !rat_eq(na, nb),
{
    lemma_axis_values(a, b, p, direction);
    let (na, nb) = spec_axis_recompute(a, b, p, direction)->Some_0;
    let nua = axis_new_ul_num(a, b, p, direction);
    let nlb = axis_new_lr_num(a, b, p, direction);
    let d = axis_den(a, b, p);
    let k = extent_ratio_eighths(direction);
    let e = extent_num(a, b);
    assert(e != 0);
    assert(nlb - nua == 2 * k * p.den * e) by (nonlinear_arith)
        requires
            nua == 16 * pick_num(a, b, p) - k * p.den * e,
            nlb == 16 * pick_num(a, b, p) + k * p.den * e,
    ;
    assert((nb.num * na.den - na.num * nb.den) * d == (nlb - nua) * (na.den * nb.den))
        by (nonlinear_arith)
        requires
            na.num * d == nua * na.den,
            nb.num * d == nlb * nb.den,
    ;
    assert((nlb - nua) * (na.den * nb.den) != 0) by (nonlinear_arith)
        requires
            nlb - nua == 2 * k * p.den * e,
            k >= 7,
            p.den >= 1,
            e != 0,
            na.den >= 1,
            nb.den >= 1,
    ;
    assert(nb.num * na.den != na.num * nb.den) by (nonlinear_arith)
        requires
            (nb.num * na.den - na.num * nb.den) * d == (nlb - nua) * (na.den * nb.den),
            (nlb - nua) * (na.den * nb.den) != 0,
    ;
}

/// A successful navigation yields a well-formed rectangle: bounded reduced
/// coordinates and corners distinct along both axes.
pub proof fn lemma_recompute_preserves_wf(
    current: ComplexRect,
    pick: PickPoint,
    direction: ZoomDirection,
)
    requires
        current.wf(),
        pick.wf(),
    ensures
        spec_recompute(current, pick, direction) matches Some(next) ==> next.wf(),
{
    if spec_recompute(current, pick, direction) is Some {
        lemma_axis_values(current.upper_left.re, current.lower_right.re, pick.px, direction);
        lemma_axis_values(current.upper_left.im, current.lower_right.im, pick.py, direction);
        lemma_axis_distinct(current.upper_left.re, current.lower_right.re, pick.px, direction);
        lemma_axis_distinct(current.upper_left.im, current.lower_right.im, pick.py, direction);
    }
}

/// The navigation transform is a pure function: any two results computed
/// from the same rectangle, pick point and zoom direction are the same
/// value. [`recompute`] returns exactly [`spec_recompute`], so repeated
/// calls with identical inputs return identical rectangles.
pub proof fn lemma_navigation_deterministic(
    current: ComplexRect,
    pick: PickPoint,
    direction: ZoomDirection,
    first: Option<ComplexRect>,
    second: Option<ComplexRect>,
)
    requires
        first == spec_recompute(current, pick, direction),
        second == spec_recompute(current, pick, direction),
    ensures
        first == second,
{
}

/// Transfers a sum and a difference of two fractions through their common
/// unreduced forms: with `xn / xd == u / d` and `yn / yd == v / d`, the
/// cross-multiplied midpoint and extent of `(xn, xd)` and `(yn, yd)` match
/// those of `(u, d)` and `(v, d)`.
proof fn lemma_pair_transfer(xn: int, xd: int, yn: int, yd: int, u: int, v: int, d: int)
    requires
        xn * d == u * xd,
        yn * d == v * yd,
    ensures
        (xn * yd + yn * xd) * d == (u + v) * (xd * yd),
        (yn * xd - xn * yd) * d == (v - u) * (xd * yd),
{
    lemma_distribute(xn * yd, yn * xd, d);
    lemma_distribute(yn * xd, xn * yd, d);
    lemma_distribute(u, v, xd * yd);
    lemma_distribute(v, u, xd * yd);
    lemma_scale_fraction(xn, xd, u, d, yd);
    lemma_scale_fraction(yn, yd, v, d, xd);
    assert(yd * xd == xd * yd) by (nonlinear_arith);
}

/// Multiplication distributes over a sum and a difference.
proof fn lemma_distribute(a: int, b: int, c: int)
    by (nonlinear_arith)
    ensures
        (a + b) * c == a * c + b * c,
        (a - b) * c == a * c - b * c,
{
}

/// Scaling both components of the equality `xn * d == u * xd` by `t`.
proof fn lemma_scale_fraction(xn: int, xd: int, u: int, d: int, t: int)
    by (nonlinear_arith)
    requires
        xn * d == u * xd,
    ensures
        (xn * t) * d == u * (xd * t),
{
}

/// The new center along one axis is exactly the picked plane point `m`:
/// the midpoint of the new corners and `m` agree as rational values.
proof fn lemma_axis_center_is_pick(a: Rat, b: Rat, p: Rat, direction: ZoomDirection)
    requires
        a.wf(),
        b.wf(),
        p.wf(),
    ensures
        spec_axis_recompute(a, b, p, direction) matches Some((na, nb)) ==> midpoint_num(na, nb)
            * pick_den(a, b, p) == pick_num(a, b, p) * midpoint_den(na, nb),
{
    if spec_axis_recompute(a, b, p, direction) is Some {
        lemma_axis_values(a, b, p, direction);
        let (na, nb) = spec_axis_recompute(a, b, p, direction)->Some_0;
        let nua = axis_new_ul_num(a, b, p, direction);
        let nlb = axis_new_lr_num(a, b, p, direction);
        let d = axis_den(a, b, p);
        let pnum = pick_num(a, b, p);
        let pden = pick_den(a, b, p);
        let k = extent_ratio_eighths(direction);
        let mid = midpoint_num(na, nb);
        let x = na.den * nb.den;
        assert(nua + nlb == 32 * pnum) by (nonlinear_arith)
            requires
                nua == 16 * pnum - k * p.den * extent_num(a, b),
                nlb == 16 * pnum + k * p.den * extent_num(a, b),
        ;
        lemma_pair_transfer(
            na.num as int,
            na.den as int,
            nb.num as int,
            nb.den as int,
            nua,
            nlb,
            d,
        );
        assert(mid * d == (32 * pnum) * x);
        assert(d == 16 * pden) by (nonlinear_arith)
            requires
                d == 16 * p.den * a.den * b.den,
                pden == p.den * a.den * b.den,
        ;
        assert((mid * pden) * d == (mid * d) * pden) by (nonlinear_arith);
        assert(midpoint_den(na, nb) == 2 * x) by (nonlinear_arith)
            requires
                midpoint_den(na, nb) == 2 * na.den * nb.den,
                x == na.den * nb.den,
        ;
        assert((pnum * midpoint_den(na, nb)) * d == ((32 * pnum) * x) * pden) by (nonlinear_arith)
            requires
                midpoint_den(na, nb) == 2 * x,
                d == 16 * pden,
        ;
        assert((mid * d) * pden == ((32 * pnum) * x) * pden);
        lemma_cancel_common_factor(mid * pden, pnum * midpoint_den(na, nb), d);
    }
}

/// Recenter correctness: after any successful navigation, the center of the
/// new rectangle is exactly the picked plane point, the bilinear
/// interpolation of the old corners with the pick point as weights.
pub proof fn lemma_recompute_centers_on_pick(
    current: ComplexRect,
    pick: PickPoint,
    direction: ZoomDirection,
)
    requires
        current.wf(),
        pick.wf(),
    ensures
        spec_recompute(current, pick, direction) matches Some(next) ==> {
            &&& midpoint_num(next.upper_left.re, next.lower_right.re) * pick_den(
                current.upper_left.re,
                current.lower_right.re,
                pick.px,
            ) == pick_num(current.upper_left.re, current.lower_right.re, pick.px) * midpoint_den(
                next.upper_left.re,
                next.lower_right.re,
            )
            &&& midpoint_num(next.upper_left.im, next.lower_right.im) * pick_den(
                current.upper_left.im,
                current.lower_right.im,
                pick.py,
            ) == pick_num(current.upper_left.im, current.lower_right.im, pick.py) * midpoint_den(
                next.upper_left.im,
                next.lower_right.im,
            )
        },
{
    if spec_recompute(current, pick, direction) is Some {
        lemma_axis_center_is_pick(current.upper_left.re, current.lower_right.re, pick.px, direction);
        lemma_axis_center_is_pick(current.upper_left.im, current.lower_right.im, pick.py, direction);
    }
}

/// Center-preserving keyboard zoom: with the pick point at the viewport
/// center `(1/2, 1/2)`, a successful navigation leaves the rectangle's
/// center unchanged as a rational value along both axes.
pub proof fn lemma_keyboard_zoom_preserves_center(current: ComplexRect, direction: ZoomDirection)
    requires
        current.wf(),
    ensures
        spec_recompute(current, spec_viewport_center(), direction) matches Some(next) ==> {
            &&& midpoint_num(next.upper_left.re, next.lower_right.re) * midpoint_den(
                current.upper_left.re,
                current.lower_right.re,
            ) == midpoint_num(current.upper_left.re, current.lower_right.re) * midpoint_den(
                next.upper_left.re,
                next.lower_right.re,
            )
            &&& midpoint_num(next.upper_left.im, next.lower_right.im) * midpoint_den(
                current.upper_left.im,
                current.lower_right.im,
            ) == midpoint_num(current.upper_left.im, current.lower_right.im) * midpoint_den(
                next.upper_left.im,
                next.lower_right.im,
            )
        },
{
    lemma_recompute_centers_on_pick(current, spec_viewport_center(), direction);
}

/// Geometric extent ratio: after a successful navigation the signed extent
/// along each axis is exactly `k / 8` of the old extent as a rational value,
/// with `k = 7` for a zoom in and `k = 9` for a zoom out.
pub proof fn lemma_zoom_extent_ratio(
    current: ComplexRect,
    pick: PickPoint,
    direction: ZoomDirection,
)
    requires
        current.wf(),
        pick.wf(),
    ensures
        spec_recompute(current, pick, direction) matches Some(next) ==> {
            &&& extent_num(next.upper_left.re, next.lower_right.re) * (8 * extent_den(
                current.upper_left.re,
                current.lower_right.re,
            )) == extent_ratio_eighths(direction) * extent_num(
                current.upper_left.re,
                current.lower_right.re,
            ) * extent_den(next.upper_left.re, next.lower_right.re)
            &&& extent_num(next.upper_left.im, next.lower_right.im) * (8 * extent_den(
                current.upper_left.im,
                current.lower_right.im,
            )) == extent_ratio_eighths(direction) * extent_num(
                current.upper_left.im,
                current.lower_right.im,
            ) * extent_den(next.upper_left.im, next.lower_right.im)
        },
{
    if spec_recompute(current, pick, direction) is Some {
        lemma_axis_extent_ratio(current.upper_left.re, current.lower_right.re, pick.px, direction);
        lemma_axis_extent_ratio(current.upper_left.im, current.lower_right.im, pick.py, direction);
    }
}

/// The extent ratio along one axis.
proof fn lemma_axis_extent_ratio(a: Rat, b: Rat, p: Rat, direction: ZoomDirection)
    requires
        a.wf(),
        b.wf(),
        p.wf(),
    ensures
        spec_axis_recompute(a, b, p, direction) matches Some((na, nb)) ==> extent_num(na, nb) * (8
            * extent_den(a, b)) == extent_ratio_eighths(direction) * extent_num(a, b) * extent_den(
            na,
            nb,
        ),
{
    if spec_axis_recompute(a, b, p, direction) is Some {
        lemma_axis_values(a, b, p, direction);
        let (na, nb) = spec_axis_recompute(a, b, p, direction)->Some_0;
        let nua = axis_new_ul_num(a, b, p, direction);
        let nlb = axis_new_lr_num(a, b, p, direction);
        let d = axis_den(a, b, p);
        let k = extent_ratio_eighths(direction);
        let e = extent_num(a, b);
        let eden = extent_den(a, b);
        let w = 8 * eden;
        let x = na.den * nb.den;
        let enew = extent_num(na, nb);
        assert(nlb - nua == 2 * (k * e) * p.den) by (nonlinear_arith)
            requires
                nua == 16 * pick_num(a, b, p) - k * p.den * e,
                nlb == 16 * pick_num(a, b, p) + k * p.den * e,
        ;
        lemma_pair_transfer(
            na.num as int,
            na.den as int,
            nb.num as int,
            nb.den as int,
            nua,
            nlb,
            d,
        );
        assert(enew * d == (2 * (k * e) * p.den) * x);
        assert(d == 16 * (p.den * eden)) by (nonlinear_arith)
            requires
                d == 16 * p.den * a.den * b.den,
                eden == a.den * b.den,
        ;
        assert((enew * w) * d == (enew * d) * w) by (nonlinear_arith);
        assert((enew * d) * w == ((2 * (k * e) * p.den) * x) * w);
        assert(((2 * (k * e) * p.den) * x) * w == ((k * e) * x) * (16 * (p.den * eden)))
            by (nonlinear_arith)
            requires
                w == 8 * eden,
        ;
        assert(((k * e) * x) * (16 * (p.den * eden)) == ((k * e) * x) * d);
        lemma_cancel_common_factor(enew * w, (k * e) * x, d);
        assert(enew * (8 * extent_den(a, b)) == enew * w);
        assert(extent_ratio_eighths(direction) * extent_num(a, b) * extent_den(na, nb) == (k * e)
            * x);
    }
}

} // verus!
