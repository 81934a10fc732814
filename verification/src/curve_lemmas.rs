//! Facts about the group law of the curve.

use vstd::prelude::*;
use crate::field_spec::Gf25;
use crate::unreduced::lemma_division;
use crate::field_lemmas::lemma_div_mul;
use crate::field_lemmas::lemma_div_neg;
use crate::field_lemmas::lemma_mul_distributive;
use crate::field_lemmas::lemma_neg_fixes_zero;
use crate::field_lemmas::lemma_sub_shift;
use crate::field_lemmas::lemma_sub_sub;
use crate::field_lemmas::lemma_sub_swap;
use crate::curve_spec::add_defined;
use crate::curve_spec::affine;
use crate::curve_spec::chord_slope;
use crate::curve_spec::curve_add;
use crate::curve_spec::CurvePoint;
use crate::curve_spec::has_vertical_tangent;
use crate::curve_spec::ladder;
use crate::curve_spec::ladder_defined;
use crate::curve_spec::scalar_mul;
use crate::curve_spec::scalar_mul_defined;
use crate::curve_spec::tangent_denominator;
use crate::curve_spec::third_point;

verus! {

/// The point at infinity is neutral on both sides.
pub proof fn lemma_point_add_identity(p: CurvePoint, a: Gf25)
    ensures
        curve_add(p, CurvePoint::Identity, a) == p,
        curve_add(CurvePoint::Identity, p, a) == p,
{
}

/// A point and its mirror image add up to the point at infinity, unless the
/// point is its own mirror image: on the line `y = 0` the sum is a doubling,
/// and the tangent there is vertical.
pub proof fn lemma_point_add_neg(x: Gf25, y: Gf25, a: Gf25)
    requires
        x.canonical(),
        y.canonical(),
        y != Gf25::zero(),
    ensures
        curve_add(affine(x, y), affine(x, y.neg()), a) == CurvePoint::Identity,
        affine(x, y).neg() == affine(x, y.neg()),
{
    lemma_neg_fixes_zero(y);
}

/// Doubling is the one addition of canonical points that can divide by
/// zero, and it does so exactly on the line `y = 0`.
pub proof fn lemma_point_add_defined(p: CurvePoint, q: CurvePoint)
    requires
        p.canonical(),
        q.canonical(),
    ensures
        add_defined(p, q) <==> !(p == q && has_vertical_tangent(p)),
{
    if let CurvePoint::Affine { y, .. } = p {
        lemma_tangent_denominator(y);
    }
}

/// `2·y` is zero only where `y` is.
pub proof fn lemma_tangent_denominator(y: Gf25)
    requires
        y.canonical(),
    ensures
        tangent_denominator(y) == Gf25::zero() <==> y == Gf25::zero(),
{
    let q = lemma_division(2 * y.re);
    let r = lemma_division(2 * y.im);
}

/// `0·p` is the point at infinity.
pub proof fn lemma_scalar_mul_zero(p: CurvePoint, a: Gf25)
    ensures
        scalar_mul(0, p, a) == CurvePoint::Identity,
        scalar_mul_defined(0, p, a),
{
    reveal(ladder);
    reveal(ladder_defined);
}

/// `1·p` is `p`. Double-and-add still doubles `p` once, to no use.
pub proof fn lemma_scalar_mul_one(p: CurvePoint, a: Gf25)
    ensures
        scalar_mul(1, p, a) == p,
        scalar_mul(1, p, a) == curve_add(scalar_mul(0, p, a), p, a),
        scalar_mul_defined(1, p, a) <==> add_defined(p, p),
{
    reveal_with_fuel(ladder, 2);
    reveal_with_fuel(ladder_defined, 2);
}

/// `2·p` is `p + p`, and so `1·p + p`.
pub proof fn lemma_scalar_mul_two(p: CurvePoint, a: Gf25)
    ensures
        scalar_mul(2, p, a) == curve_add(p, p, a),
        scalar_mul(2, p, a) == curve_add(scalar_mul(1, p, a), p, a),
{
    reveal_with_fuel(ladder, 3);
}

/// Every multiple of the point at infinity is the point at infinity.
pub proof fn lemma_scalar_mul_identity(n: nat, a: Gf25)
    ensures
        scalar_mul(n, CurvePoint::Identity, a) == CurvePoint::Identity,
        scalar_mul_defined(n, CurvePoint::Identity, a),
    decreases n,
{
    reveal(ladder);
    reveal(ladder_defined);
    if n > 0 {
        lemma_scalar_mul_identity(n / 2, a);
    }
}

/// The sum of canonical points is canonical.
pub proof fn lemma_point_add_canonical(p: CurvePoint, q: CurvePoint, a: Gf25)
    requires
        p.canonical(),
        q.canonical(),
    ensures
        curve_add(p, q, a).canonical(),
{
    reveal(third_point);
}

/// The chord through two points with different `x` has the same slope
/// whichever point comes first, and the slope times the difference of the
/// `x` is the difference of the `y`.
proof fn lemma_chord_slope(x1: Gf25, y1: Gf25, x2: Gf25, y2: Gf25)
    requires
        x1.canonical(),
        y1.canonical(),
        x2.canonical(),
        y2.canonical(),
        x1 != x2,
    ensures
        chord_slope(x1, y1, x2, y2) == chord_slope(x2, y2, x1, y1),
        chord_slope(x1, y1, x2, y2).mul(x2.sub(x1)) == y2.sub(y1),
{
    reveal(chord_slope);
    let run = x2.sub(x1);
    let rise = y2.sub(y1);
    lemma_sub_swap(x2, x1);
    lemma_sub_swap(x1, x2);
    lemma_sub_swap(y1, y2);
    lemma_div_neg(rise, run);
    lemma_div_mul(rise, run);
}

/// Addition of canonical points is commutative.
pub proof fn lemma_point_add_commutative(p: CurvePoint, q: CurvePoint, a: Gf25)
    requires
        p.canonical(),
        q.canonical(),
    ensures
        curve_add(p, q, a) == curve_add(q, p, a),
{
    if let CurvePoint::Affine { x: x1, y: y1 } = p {
        if let CurvePoint::Affine { x: x2, y: y2 } = q {
            if x1 != x2 {
                reveal(third_point);
                let lambda = chord_slope(x1, y1, x2, y2);
                lemma_chord_slope(x1, y1, x2, y2);
                let square = lambda.mul(lambda);
                let x3 = square.sub(x1).sub(x2);
                lemma_sub_sub(square, x1, x2);
                // λ·x2 − λ·x1 = λ·(x2 − x1) = y2 − y1
                lemma_mul_distributive(lambda, x2, x1);
                lemma_mul_distributive(lambda, x1, x3);
                lemma_mul_distributive(lambda, x2, x3);
                lemma_sub_shift(lambda.mul(x1), lambda.mul(x2), lambda.mul(x3), y1, y2);
            }
        }
    }
}

/// `3·p` is `p + 2·p`, and so `2·p + p`.
pub proof fn lemma_scalar_mul_three(p: CurvePoint, a: Gf25)
    requires
        p.canonical(),
    ensures
        scalar_mul(3, p, a) == curve_add(p, curve_add(p, p, a), a),
        scalar_mul(3, p, a) == curve_add(scalar_mul(2, p, a), p, a),
{
    reveal_with_fuel(ladder, 3);
    lemma_scalar_mul_two(p, a);
    lemma_point_add_canonical(p, p, a);
    lemma_point_add_commutative(p, curve_add(p, p, a), a);
}

} // verus!
