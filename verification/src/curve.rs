//! Points of the curve and its group law, executable.

use vstd::prelude::*;
use vstd::string::StringExecFns;
use crate::field_spec::Gf25;
use crate::field::F5x2;
use crate::curve_spec::add_defined;
use crate::curve_spec::affine;
use crate::curve_spec::chord_slope;
use crate::curve_spec::curve_add;
use crate::curve_spec::CurvePoint;
use crate::curve_spec::has_vertical_tangent;
use crate::curve_spec::ladder;
use crate::curve_spec::ladder_defined;
use crate::curve_spec::point_text;
use crate::curve_spec::scalar_mul;
use crate::curve_spec::scalar_mul_defined;
use crate::curve_spec::tangent_slope;
use crate::curve_spec::third_point;
use crate::curve_lemmas::lemma_point_add_neg;
use crate::curve_lemmas::lemma_scalar_mul_one;
use crate::curve_lemmas::lemma_scalar_mul_two;
use crate::curve_lemmas::lemma_scalar_mul_zero;

verus! {

/// A point of the curve: both coordinates, or neither for the point at
/// infinity.
#[derive(Clone, Copy, Debug, PartialEq, Eq, Structural)]
pub struct Point {
    x: Option<F5x2>,
    y: Option<F5x2>,
}

impl View for Point {
    type V = CurvePoint;

    closed spec fn view(&self) -> CurvePoint {
        match (self.x, self.y) {
            (Some(x), Some(y)) => CurvePoint::Affine { x: x@, y: y@ },
            _ => CurvePoint::Identity,
        }
    }
}

impl DeepView for Point {
    type V = CurvePoint;

    open spec fn deep_view(&self) -> CurvePoint {
        self@
    }
}

impl Point {
    /// A point has both coordinates or none, and they are reduced.
    #[verifier::type_invariant]
    pub closed spec fn wf(self) -> bool {
        &&& self.x is Some <==> self.y is Some
        &&& self.x matches Some(x) ==> x.wf()
        &&& self.y matches Some(y) ==> y.wf()
    }

    /// Two well-formed points stand for the same point of the curve only if
    /// they are equal.
    pub proof fn lemma_view_injective(p: Point, q: Point)
        requires
            p.wf(),
            q.wf(),
        ensures
            p@ == q@ <==> p == q,
    {
        if p.x is Some && q.x is Some {
            F5x2::lemma_view_injective(p.x->0, q.x->0);
            F5x2::lemma_view_injective(p.y->0, q.y->0);
        }
    }

    /// A well-formed point has canonical coordinates.
    pub proof fn lemma_wf_canonical(p: Point)
        requires
            p.wf(),
        ensures
            p@.canonical(),
    {
    }

    /// The point with the given coordinates, or the point at infinity where
    /// there are none.
    pub fn new(x: Option<F5x2>, y: Option<F5x2>) -> (r: Point)
        requires
            x is Some <==> y is Some,
        ensures
            r@ == match (x, y) {
                (Some(x), Some(y)) => affine(x@, y@),
                _ => CurvePoint::Identity,
            },
    {
        proof {
            if let Some(x) = x {
                use_type_invariant(&x);
            }
            if let Some(y) = y {
                use_type_invariant(&y);
            }
        }
        Point { x, y }
    }

    /// Whether this is the point at infinity.
    pub fn is_at_infinity(&self) -> (r: bool)
        ensures
            r == (self@ is Identity),
    {
        proof {
            use_type_invariant(self);
        }
        self.x.is_none() && self.y.is_none()
    }

    /// The point at infinity, the neutral element of the group.
    pub fn at_infinity() -> (r: Point)
        ensures
            r@ is Identity,
    {
        Point { x: None, y: None }
    }

    /// The point in writing: `(x, y)`, or `Point at infinity`.
    pub fn to_text(&self) -> (s: String)
        ensures
            s@ == point_text(self@),
    {
        if self.is_at_infinity() {
            String::from_str("Point at infinity")
        } else {
            proof {
                use_type_invariant(self);
            }
            let x = self.x.unwrap().to_text();
            let y = self.y.unwrap().to_text();
            String::from_str("(").concat(x.as_str()).concat(", ").concat(y.as_str()).concat(")")
        }
    }
}

/// Whether `point_add` can add `p` and `q`: it cannot double a point whose
/// tangent is vertical.
pub fn point_add_defined(p: Point, q: Point) -> (d: bool)
    ensures
        d == add_defined(p@, q@),
{
    if p.is_at_infinity() || q.is_at_infinity() {
        return true;
    }
    proof {
        use_type_invariant(&p);
        use_type_invariant(&q);
    }
    let (x1, y1) = (p.x.unwrap(), p.y.unwrap());
    let (x2, y2) = (q.x.unwrap(), q.y.unwrap());
    proof {
        F5x2::lemma_view_injective(x1, x2);
        F5x2::lemma_view_injective(y1, y2);
    }
    if x1 == x2 && y1 != y2 {
        true
    } else if x1 == x2 {
        !y1.mul(F5x2::new(2, 0)).is_zero()
    } else {
        !x2.sub(x1).is_zero()
    }
}

/// Point addition on the curve `y² = x³ + a·x + b`. Of canonical points
/// only the double of a point on the line `y = 0` is left out, where the
/// tangent is vertical and its slope would be a division by zero.
pub fn point_add(p: Point, q: Point, a: F5x2) -> (r: Point)
    requires
        add_defined(p@, q@),
    ensures
        r@ == curve_add(p@, q@, a@),
        p@ is Identity ==> r@ == q@,
        q@ is Identity ==> r@ == p@,
        p@ is Affine && q@ == p@.neg() && !has_vertical_tangent(p@) ==> r@ is Identity,
{
    proof {
        use_type_invariant(&p);
        Point::lemma_wf_canonical(p);
        if let CurvePoint::Affine { x, y } = p@ {
            if y != Gf25::zero() {
                lemma_point_add_neg(x, y, a@);
            }
        }
    }
    if p.is_at_infinity() {
        return q;
    }
    if q.is_at_infinity() {
        return p;
    }
    proof {
        use_type_invariant(&p);
        use_type_invariant(&q);
    }
    let (x1, y1) = (p.x.unwrap(), p.y.unwrap());
    let (x2, y2) = (q.x.unwrap(), q.y.unwrap());
    proof {
        F5x2::lemma_view_injective(x1, x2);
        F5x2::lemma_view_injective(y1, y2);
    }
    if x1 == x2 && y1 != y2 {
        return Point::at_infinity();
    }
    proof {
        reveal(tangent_slope);
        reveal(chord_slope);
        reveal(third_point);
    }
    let lambda = if x1 == x2 && y1 == y2 {
        // Point doubling: λ = (3·x1² + a) / (2·y1)
        let numerator = x1.mul(x1).mul(F5x2::new(3, 0)).add(a);
        let denominator = y1.mul(F5x2::new(2, 0));
        numerator.div(denominator)
    } else {
        // Point addition: λ = (y2 − y1) / (x2 − x1)
        let numerator = y2.sub(y1);
        let denominator = x2.sub(x1);
        numerator.div(denominator)
    };
    let x3 = lambda.mul(lambda).sub(x1).sub(x2);
    let y3 = lambda.mul(x1.sub(x3)).sub(y1);
    Point::new(Some(x3), Some(y3))
}

/// Scalar multiplication using double-and-add, from the lowest bit of `n`
/// upwards. The running base is doubled once for every bit of `n`, after
/// the last one too, and each of these doublings has to be one that
/// `point_add` can make.
pub fn point_mul(n: u8, p: Point, a: F5x2) -> (r: Point)
    requires
        scalar_mul_defined(n as nat, p@, a@),
    ensures
        r@ == scalar_mul(n as nat, p@, a@),
        n == 0 ==> r@ is Identity,
        n == 1 ==> r@ == p@,
        n == 2 ==> r@ == curve_add(p@, p@, a@),
{
    proof {
        lemma_scalar_mul_zero(p@, a@);
        lemma_scalar_mul_one(p@, a@);
        lemma_scalar_mul_two(p@, a@);
    }
    let mut result = Point::at_infinity();
    let mut base = p;
    let mut k = n;
    while k > 0
        invariant
            ladder_defined(k as nat, base@, result@, a@),
            ladder(k as nat, base@, result@, a@) == scalar_mul(n as nat, p@, a@),
        decreases k,
    {
        assert(k & 1 == k % 2 && k >> 1 == k / 2) by (bit_vector);
        proof {
            reveal(ladder);
            reveal(ladder_defined);
        }
        if k & 1 == 1 {
            result = point_add(result, base, a);
        }
        base = point_add(base, base, a);
        k >>= 1;
    }
    proof {
        reveal(ladder);
    }
    result
}

/// Whether `point_mul` can multiply `p` by `n`: whether every addition and
/// doubling of the double-and-add is one that `point_add` can make.
pub fn point_mul_defined(n: u8, p: Point, a: F5x2) -> (d: bool)
    ensures
        d == scalar_mul_defined(n as nat, p@, a@),
{
    let mut result = Point::at_infinity();
    let mut base = p;
    let mut k = n;
    while k > 0
        invariant
            ladder_defined(k as nat, base@, result@, a@) == scalar_mul_defined(n as nat, p@, a@),
        decreases k,
    {
        assert(k & 1 == k % 2 && k >> 1 == k / 2) by (bit_vector);
        proof {
            reveal(ladder_defined);
        }
        if k & 1 == 1 {
            if !point_add_defined(result, base) {
                return false;
            }
            result = point_add(result, base, a);
        }
        if !point_add_defined(base, base) {
            return false;
        }
        base = point_add(base, base, a);
        k >>= 1;
    }
    proof {
        reveal(ladder_defined);
    }
    true
}

/// Applies the Frobenius endomorphism to a point:
/// (x, y) -> (x^5, y^5).
pub fn point_frobenius(p: Point) -> (r: Point)
    ensures
        r@ == p@.frobenius(),
{
    if p.is_at_infinity() {
        p
    } else {
        proof {
            use_type_invariant(&p);
        }
        let (x, y) = (p.x.unwrap(), p.y.unwrap());
        Point::new(Some(x.frobenius()), Some(y.frobenius()))
    }
}

} // verus!
