//! Exact rational coordinates.
//!
//! Every coordinate of the visible rectangle is a fraction of two `i64`
//! components. Fractions handed out by this module are reduced by the
//! greatest common divisor of their components and carry a positive
//! denominator, so a navigation step is reproducible bit for bit. A fraction
//! whose reduced components would not fit within [`COORD_BOUND`] is rejected
//! rather than rounded.

use vstd::prelude::*;
use vstd::arithmetic::div_mod::{
    lemma_fundamental_div_mod, lemma_mod_multiples_vanish, lemma_mod_self_0, lemma_small_mod,
};

verus! {

/// Largest magnitude allowed for a numerator and largest value allowed for a
/// denominator of a coordinate. It is 2^40, chosen so that the navigation
/// transform's intermediate values (products of three components times small
/// constants) always fit in `i128`.
pub const COORD_BOUND: i64 = 0x100_0000_0000;

/// An exact fraction `num / den`. Well-formed values (see [`Rat::wf`]) keep
/// `1 <= den` and both components within [`COORD_BOUND`].
#[derive(Clone, Copy, PartialEq, Eq, Structural, Debug)]
pub struct Rat {
    pub num: i64,
    pub den: i64,
}

impl Rat {
    /// Components are bounded and the denominator is positive.
    pub open spec fn wf(self) -> bool {
        &&& 1 <= self.den <= COORD_BOUND
        &&& -COORD_BOUND <= self.num <= COORD_BOUND
    }

    /// The fraction lies in the closed unit interval `[0, 1]`.
    pub open spec fn in_unit(self) -> bool {
        0 <= self.num <= self.den
    }

    /// Runtime check for [`Rat::wf`].
    pub fn is_wf(&self) -> (r: bool)
        ensures
            r == self.wf(),
    {
        1 <= self.den && self.den <= COORD_BOUND && -COORD_BOUND <= self.num && self.num
            <= COORD_BOUND
    }

    /// Runtime check for [`Rat::in_unit`].
    pub fn is_in_unit(&self) -> (r: bool)
        ensures
            r == self.in_unit(),
    {
        0 <= self.num && self.num <= self.den
    }

    /// Runtime check for [`rat_eq`]: the two fractions denote the same value.
    pub fn eq_value(&self, other: &Rat) -> (r: bool)
        ensures
            r == rat_eq(*self, *other),
    {
        proof {
            lemma_i64_mul_fits(self.num as int, other.den as int);
            lemma_i64_mul_fits(other.num as int, self.den as int);
        }
        (self.num as i128) * (other.den as i128) == (other.num as i128) * (self.den as i128)
    }

    /// Builds the reduced fraction `num / den`. Returns `None` when `den` is
    /// zero or when the reduced components do not fit within [`COORD_BOUND`].
    pub fn new(num: i64, den: i64) -> (r: Option<Rat>)
        ensures
            r == make_rat(num as int, den as int),
    {
        if den == 0 {
            None
        } else if den > 0 {
            normalize_fraction(num as i128, den as i128)
        } else {
            normalize_fraction(-(num as i128), -(den as i128))
        }
    }
}

/// The two fractions denote the same rational value (cross multiplication).
pub open spec fn rat_eq(a: Rat, b: Rat) -> bool {
    a.num * b.den == b.num * a.den
}

/// The reduced fraction `n / d` for any `den` sign, `None` when `den == 0` or
/// the reduced components exceed [`COORD_BOUND`].
pub open spec fn make_rat(n: int, d: int) -> Option<Rat> {
    if d == 0 {
        None
    } else if d > 0 {
        norm_fraction(n, d)
    } else {
        norm_fraction(-n, -d)
    }
}

/// Magnitude of an integer.
pub open spec fn int_abs(n: int) -> nat {
    if n >= 0 {
        n as nat
    } else {
        (-n) as nat
    }
}

/// Greatest common divisor by Euclid's recursion.
pub open spec fn gcd(a: nat, b: nat) -> nat
    decreases b,
{
    if b == 0 {
        a
    } else {
        gcd(b, a % b)
    }
}

/// The reduced form of `n / d` for `d >= 1`: both components divided by their
/// greatest common divisor, the sign carried by the numerator. `None` when
/// the reduced components exceed [`COORD_BOUND`].
pub open spec fn norm_fraction(n: int, d: int) -> Option<Rat>
    recommends
        d >= 1,
{
    let g = gcd(int_abs(n), d as nat) as int;
    let un = int_abs(n) as int / g;
    let ud = d / g;
    if un <= COORD_BOUND && ud <= COORD_BOUND {
        Some(
            Rat {
                num: if n >= 0 {
                    un as i64
                } else {
                    (-un) as i64
                },
                den: ud as i64,
            },
        )
    } else {
        None
    }
}

/// A product of two `i64`-ranged values fits in `i128`.
pub proof fn lemma_i64_mul_fits(x: int, y: int)
    by (nonlinear_arith)
    requires
        -0x8000_0000_0000_0000 <= x <= 0x8000_0000_0000_0000,
        -0x8000_0000_0000_0000 <= y <= 0x8000_0000_0000_0000,
    ensures
        -0x4000_0000_0000_0000_0000_0000_0000_0000 <= x * y
            <= 0x4000_0000_0000_0000_0000_0000_0000_0000,
{
}

/// A product of values bounded in magnitude by `cx` and `cy` is bounded in
/// magnitude by `cx * cy`.
pub proof fn lemma_abs_mul_bound(x: int, y: int, cx: int, cy: int)
    by (nonlinear_arith)
    requires
        0 <= cx,
        0 <= cy,
        -cx <= x <= cx,
        -cy <= y <= cy,
    ensures
        -(cx * cy) <= x * y <= cx * cy,
{
}

/// A product of two factors at least one each is at least either factor.
pub proof fn lemma_mul_pos(x: int, y: int)
    by (nonlinear_arith)
    requires
        x >= 1,
        y >= 1,
    ensures
        x * y >= x,
        x * y >= y,
        x * y >= 1,
{
}

/// Equal products with a common nonzero factor have equal cofactors.
pub proof fn lemma_cancel_common_factor(x: int, y: int, z: int)
    by (nonlinear_arith)
    requires
        z != 0,
        x * z == y * z,
    ensures
        x == y,
{
}

/// The greatest common divisor of two naturals, one of them positive, is
/// positive.
pub proof fn lemma_gcd_pos(a: nat, b: nat)
    requires
        a > 0 || b > 0,
    ensures
        gcd(a, b) > 0,
    decreases b,
{
    if b != 0 {
        lemma_gcd_pos(b, a % b);
    }
}

/// The greatest common divisor divides both of its arguments.
pub proof fn lemma_gcd_divides(a: nat, b: nat)
    requires
        a > 0 || b > 0,
    ensures
        gcd(a, b) > 0,
        a % gcd(a, b) == 0,
        b % gcd(a, b) == 0,
    decreases b,
{
    lemma_gcd_pos(a, b);
    if b == 0 {
        lemma_mod_self_0(a as int);
        lemma_small_mod(0, a);
    } else {
        let g = gcd(b, a % b);
        lemma_gcd_divides(b, a % b);
        lemma_fundamental_div_mod(a as int, b as int);
        lemma_fundamental_div_mod(b as int, g as int);
        let k = b as int / g as int;
        let q = a as int / b as int;
        let r = (a % b) as int;
        assert(b as int == g * k);
        assert(a as int == g * (k * q) + r) by (nonlinear_arith)
            requires
                a as int == (b as int) * q + r,
                b as int == g * k,
        ;
        lemma_mod_multiples_vanish(k * q, r, g as int);
    }
}

/// An exact quotient multiplied back by the divisor restores the dividend.
pub proof fn lemma_div_exact(x: int, d: int)
    requires
        d > 0,
        x % d == 0,
    ensures
        d * (x / d) == x,
{
    lemma_fundamental_div_mod(x, d);
}

/// What [`norm_fraction`] hands back: a well-formed fraction denoting exactly
/// the value `n / d`, with the sign of `n` on the numerator.
pub proof fn lemma_norm_fraction_props(n: int, d: int)
    requires
        d >= 1,
    ensures
        norm_fraction(n, d) matches Some(r) ==> {
            &&& r.wf()
            &&& r.num * d == n * r.den
            &&& (n == 0 <==> r.num == 0)
        },
{
    if norm_fraction(n, d) is Some {
        let a = int_abs(n);
        lemma_gcd_divides(a, d as nat);
        let g = gcd(a, d as nat) as int;
        let un = a as int / g;
        let ud = d / g;
        lemma_div_exact(a as int, g);
        lemma_div_exact(d, g);
        assert(a as int == g * un);
        assert(d == g * ud);
        assert(un >= 0) by (nonlinear_arith)
            requires
                g > 0,
                a as int == g * un,
                a as int >= 0,
        ;
        assert(ud >= 1) by (nonlinear_arith)
            requires
                g > 0,
                d == g * ud,
                d >= 1,
        ;
        let r = norm_fraction(n, d)->Some_0;
        if n >= 0 {
            assert(r.num * d == n * r.den) by (nonlinear_arith)
                requires
                    r.num == un,
                    r.den == ud,
                    n == a as int,
                    a as int == g * un,
                    d == g * ud,
            ;
        } else {
            assert(r.num * d == n * r.den) by (nonlinear_arith)
                requires
                    r.num == -un,
                    r.den == ud,
                    n == -(a as int),
                    a as int == g * un,
                    d == g * ud,
            ;
        }
        assert(n == 0 <==> r.num == 0) by (nonlinear_arith)
            requires
                r.num * d == n * r.den,
                d >= 1,
                r.den >= 1,
                int_abs(n) == 0 <==> n == 0,
                r.num == if n >= 0 { un } else { -un },
                un == int_abs(n) as int / g,
                g > 0,
                int_abs(n) as int == g * un,
        ;
    }
}

/// Euclid's algorithm for the greatest common divisor.
pub fn gcd_u128(a0: u128, b0: u128) -> (g: u128)
    ensures
        g == gcd(a0 as nat, b0 as nat),
{
    let mut a = a0;
    let mut b = b0;
    while b != 0
        invariant
            gcd(a as nat, b as nat) == gcd(a0 as nat, b0 as nat),
        decreases b,
    {
        let t = a % b;
        a = b;
        b = t;
    }
    a
}

/// Reduces `n / d` (with `d >= 1`) by the greatest common divisor of its
/// components; `None` when the reduced components exceed [`COORD_BOUND`].
pub fn normalize_fraction(n: i128, d: i128) -> (r: Option<Rat>)
    requires
        1 <= d <= 0x4000_0000_0000_0000_0000_0000_0000_0000,
        -0x4000_0000_0000_0000_0000_0000_0000_0000 <= n
            <= 0x4000_0000_0000_0000_0000_0000_0000_0000,
    ensures
        r == norm_fraction(n as int, d as int),
{
    let un: u128 = if n >= 0 {
        n as u128
    } else {
        (-n) as u128
    };
    assert(un as nat == int_abs(n as int));
    let g: u128 = gcd_u128(un, d as u128);
    proof {
        lemma_gcd_divides(un as nat, d as nat);
    }
    let qn: u128 = un / g;
    let qd: u128 = (d as u128) / g;
    if qn <= COORD_BOUND as u128 && qd <= COORD_BOUND as u128 {
        let num: i64 = if n >= 0 {
            qn as i64
        } else {
            -(qn as i64)
        };
        Some(Rat { num, den: qd as i64 })
    } else {
        None
    }
}

} // verus!
