//! The visible complex-plane rectangle.
//!
//! A [`ComplexRect`] is given by two opposite corners, `upper_left` and
//! `lower_right`, each a [`PlanePoint`] with a real and an imaginary
//! coordinate. The corners need not be axis-ordered, but a well-formed
//! rectangle keeps them distinct along both axes, so its width and height
//! never collapse to zero.

use vstd::prelude::*;
use crate::rational::{
    lemma_abs_mul_bound, lemma_mul_pos, norm_fraction, normalize_fraction, rat_eq, Rat,
    COORD_BOUND,
};

verus! {

/// A point of the complex plane: real part `re`, imaginary part `im`.
#[derive(Clone, Copy, PartialEq, Eq, Structural, Debug)]
pub struct PlanePoint {
    pub re: Rat,
    pub im: Rat,
}

impl PlanePoint {
    /// Both coordinates are well-formed fractions.
    pub open spec fn wf(self) -> bool {
        self.re.wf() && self.im.wf()
    }
}

/// The visible rectangle, two opposite corners of the complex plane.
#[derive(Clone, Copy, PartialEq, Eq, Structural, Debug)]
pub struct ComplexRect {
    pub upper_left: PlanePoint,
    pub lower_right: PlanePoint,
}

/// Numerator of the midpoint of the two fractions `a` and `b`, over
/// [`midpoint_den`].
pub open spec fn midpoint_num(a: Rat, b: Rat) -> int {
    a.num * b.den + b.num * a.den
}

/// Denominator of the midpoint of the two fractions `a` and `b`.
pub open spec fn midpoint_den(a: Rat, b: Rat) -> int {
    2 * a.den * b.den
}

/// Numerator of the signed extent `b - a`, over [`extent_den`].
pub open spec fn extent_num(a: Rat, b: Rat) -> int {
    b.num * a.den - a.num * b.den
}

/// Denominator of the signed extent `b - a`.
pub open spec fn extent_den(a: Rat, b: Rat) -> int {
    a.den * b.den
}

impl ComplexRect {
    /// All four coordinates are well-formed and the corners are distinct
    /// along both axes: the rectangle is non-degenerate.
    pub open spec fn wf(self) -> bool {
        &&& self.upper_left.wf()
        &&& self.lower_right.wf()
        &&& !rat_eq(self.upper_left.re, self.lower_right.re)
        &&& !rat_eq(self.upper_left.im, self.lower_right.im)
    }

    /// Builds a rectangle from two corners; `None` when a coordinate is not
    /// well-formed or the corners coincide along an axis.
    pub fn new(upper_left: PlanePoint, lower_right: PlanePoint) -> (r: Option<ComplexRect>)
        ensures
            r matches Some(rect) ==> rect == (ComplexRect { upper_left, lower_right })
                && rect.wf(),
            r is None ==> !(ComplexRect { upper_left, lower_right }).wf(),
    {
        let rect = ComplexRect { upper_left, lower_right };
        let coords_ok = upper_left.re.is_wf() && upper_left.im.is_wf() && lower_right.re.is_wf()
            && lower_right.im.is_wf();
        if coords_ok && !upper_left.re.eq_value(&lower_right.re) && !upper_left.im.eq_value(
            &lower_right.im,
        ) {
            Some(rect)
        } else {
            None
        }
    }

    /// The rectangle's center, the midpoint of the two corners; `None` when a
    /// reduced midpoint coordinate does not fit the representable range.
    pub fn center(&self) -> (r: Option<PlanePoint>)
        requires
            self.wf(),
        ensures
            r == spec_center(*self),
    {
        let re = midpoint(self.upper_left.re, self.lower_right.re);
        let im = midpoint(self.upper_left.im, self.lower_right.im);
        match (re, im) {
            (Some(re), Some(im)) => Some(PlanePoint { re, im }),
            _ => None,
        }
    }

    /// The rectangle's signed extent, `lower_right - upper_left` along both
    /// axes; `None` when a reduced extent coordinate does not fit the
    /// representable range.
    pub fn extent(&self) -> (r: Option<PlanePoint>)
        requires
            self.wf(),
        ensures
            r == spec_extent(*self),
    {
        let re = extent_fraction(self.upper_left.re, self.lower_right.re);
        let im = extent_fraction(self.upper_left.im, self.lower_right.im);
        match (re, im) {
            (Some(re), Some(im)) => Some(PlanePoint { re, im }),
            _ => None,
        }
    }
}

/// The reduced midpoint of both corner pairs, `None` on a coordinate out of
/// the representable range.
pub open spec fn spec_center(rect: ComplexRect) -> Option<PlanePoint> {
    let re = norm_fraction(
        midpoint_num(rect.upper_left.re, rect.lower_right.re),
        midpoint_den(rect.upper_left.re, rect.lower_right.re),
    );
    let im = norm_fraction(
        midpoint_num(rect.upper_left.im, rect.lower_right.im),
        midpoint_den(rect.upper_left.im, rect.lower_right.im),
    );
    if re is Some && im is Some {
        Some(PlanePoint { re: re->Some_0, im: im->Some_0 })
    } else {
        None
    }
}

/// The reduced signed extent along both axes, `None` on a coordinate out of
/// the representable range.
pub open spec fn spec_extent(rect: ComplexRect) -> Option<PlanePoint> {
    let re = norm_fraction(
        extent_num(rect.upper_left.re, rect.lower_right.re),
        extent_den(rect.upper_left.re, rect.lower_right.re),
    );
    let im = norm_fraction(
        extent_num(rect.upper_left.im, rect.lower_right.im),
        extent_den(rect.upper_left.im, rect.lower_right.im),
    );
    if re is Some && im is Some {
        Some(PlanePoint { re: re->Some_0, im: im->Some_0 })
    } else {
        None
    }
}

/// The reduced midpoint `(a + b) / 2` of two fractions.
fn midpoint(a: Rat, b: Rat) -> (r: Option<Rat>)
    requires
        a.wf(),
        b.wf(),
    ensures
        r == norm_fraction(midpoint_num(a, b), midpoint_den(a, b)),
{
    proof {
        lemma_abs_mul_bound(a.num as int, b.den as int, COORD_BOUND as int, COORD_BOUND as int);
        lemma_abs_mul_bound(b.num as int, a.den as int, COORD_BOUND as int, COORD_BOUND as int);
        lemma_abs_mul_bound(a.den as int, b.den as int, COORD_BOUND as int, COORD_BOUND as int);
        lemma_mul_pos(a.den as int, b.den as int);
        assert(2 * ((a.den as int) * (b.den as int)) == 2 * (a.den as int) * (b.den as int))
            by (nonlinear_arith);
    }
    let num = (a.num as i128) * (b.den as i128) + (b.num as i128) * (a.den as i128);
    let den = 2 * ((a.den as i128) * (b.den as i128));
    normalize_fraction(num, den)
}

/// The reduced signed extent `b - a` of two fractions.
fn extent_fraction(a: Rat, b: Rat) -> (r: Option<Rat>)
    requires
        a.wf(),
        b.wf(),
    ensures
        r == norm_fraction(extent_num(a, b), extent_den(a, b)),
{
    proof {
        lemma_abs_mul_bound(b.num as int, a.den as int, COORD_BOUND as int, COORD_BOUND as int);
        lemma_abs_mul_bound(a.num as int, b.den as int, COORD_BOUND as int, COORD_BOUND as int);
        lemma_abs_mul_bound(a.den as int, b.den as int, COORD_BOUND as int, COORD_BOUND as int);
        lemma_mul_pos(a.den as int, b.den as int);
    }
    let num = (b.num as i128) * (a.den as i128) - (a.num as i128) * (b.den as i128);
    let den = (a.den as i128) * (b.den as i128);
    normalize_fraction(num, den)
}

/// The default viewing window shown at startup: `upper_left = -3/4 + 3/4 i`,
/// `lower_right = 0 + 0 i`.
pub open spec fn spec_initial_view() -> ComplexRect {
    ComplexRect {
        upper_left: PlanePoint {
            re: Rat { num: -3i64, den: 4i64 },
            im: Rat { num: 3i64, den: 4i64 },
        },
        lower_right: PlanePoint {
            re: Rat { num: 0i64, den: 1i64 },
            im: Rat { num: 0i64, den: 1i64 },
        },
    }
}

impl Default for ComplexRect {
    /// The default viewing window, [`spec_initial_view`]; it is well-formed.
    fn default() -> (r: ComplexRect)
        ensures
            r == spec_initial_view(),
            r.wf(),
    {
        ComplexRect {
            upper_left: PlanePoint {
                re: Rat { num: -3, den: 4 },
                im: Rat { num: 3, den: 4 },
            },
            lower_right: PlanePoint {
                re: Rat { num: 0, den: 1 },
                im: Rat { num: 0, den: 1 },
            },
        }
    }
}

} // verus!
