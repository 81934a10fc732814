//! What the exhaustive searches over the curve return.

use vstd::prelude::*;
use crate::field_spec::Gf25;
use crate::curve_spec::affine;
use crate::curve_spec::CurvePoint;
use crate::curve_spec::satisfies_equation;
use crate::curve_spec::scalar_mul;
use crate::curve_spec::scalar_mul_defined;

verus! {

/// All 25 elements of the field: `a + b·t` for `a` from 0 to 4 and, under
/// each `a`, `b` from 0 to 4.
pub open spec fn universe() -> Seq<Gf25> {
    Seq::new(25, |i: int| Gf25 { re: i / 5, im: i % 5 })
}

/// The test whether `y` lies over `x` on the curve.
pub open spec fn lies_over(x: Gf25, a: Gf25, b: Gf25) -> spec_fn(Gf25) -> bool {
    |y: Gf25| satisfies_equation(x, y, a, b)
}

/// The map from `y` to the point `(x, y)`.
pub open spec fn with_abscissa(x: Gf25) -> spec_fn(Gf25) -> CurvePoint {
    |y: Gf25| affine(x, y)
}

/// The points `(x, y)` of the curve with `y` among `ys`, in the order of
/// `ys`.
pub open spec fn points_over(x: Gf25, ys: Seq<Gf25>, a: Gf25, b: Gf25) -> Seq<CurvePoint> {
    ys.filter(lies_over(x, a, b)).map_values(with_abscissa(x))
}

/// The map from `x` to the points of the curve over `x`.
pub open spec fn fibre(ys: Seq<Gf25>, a: Gf25, b: Gf25) -> spec_fn(Gf25) -> Seq<CurvePoint> {
    |x: Gf25| points_over(x, ys, a, b)
}

/// The points `(x, y)` of the curve with `x` among `xs` and `y` among
/// `ys`, ordered by the place of `x` in `xs`, then by that of `y` in `ys`.
pub open spec fn points_within(xs: Seq<Gf25>, ys: Seq<Gf25>, a: Gf25, b: Gf25) -> Seq<
    CurvePoint,
> {
    xs.map_values(fibre(ys, a, b)).flatten()
}

/// The affine points of the curve `y² = x³ + a·x + b` with both coordinates
/// in `field`.
pub open spec fn curve_points(field: Seq<Gf25>, a: Gf25, b: Gf25) -> Seq<CurvePoint> {
    points_within(field, field, a, b)
}

/// The test whether `n·p` is the point at infinity.
pub open spec fn killed_by(n: nat, a: Gf25) -> spec_fn(CurvePoint) -> bool {
    |p: CurvePoint| scalar_mul(n, p, a) is Identity
}

/// The points `p` of the curve with `n·p` the point at infinity: the
/// affine ones in the order of `curve_points`, then the point at infinity.
pub open spec fn torsion_points(n: nat, field: Seq<Gf25>, a: Gf25, b: Gf25) -> Seq<CurvePoint> {
    curve_points(field, a, b).filter(killed_by(n, a)).push(CurvePoint::Identity)
}

/// The test whether the Frobenius endomorphism takes `p` to `5·p`.
pub open spec fn frobenius_multiplies_by_five(a: Gf25) -> spec_fn(CurvePoint) -> bool {
    |p: CurvePoint| p.frobenius() == scalar_mul(5, p, a)
}

/// The points `p` of the curve on which the Frobenius endomorphism is
/// multiplication by 5: the affine ones in the order of `curve_points`,
/// then the point at infinity.
pub open spec fn frobenius_eigenspace(field: Seq<Gf25>, a: Gf25, b: Gf25) -> Seq<CurvePoint> {
    curve_points(field, a, b).filter(frobenius_multiplies_by_five(a)).push(CurvePoint::Identity)
}

/// The point at infinity is the last of `points` and comes nowhere else
/// among them.
pub open spec fn ends_with_identity(points: Seq<CurvePoint>) -> bool {
    &&& points.len() > 0
    &&& points.last() is Identity
    &&& forall|i: int| 0 <= i < points.len() - 1 ==> (#[trigger] points[i]) is Affine
}

/// Double-and-add of `n·p` divides by zero for none of `points`.
pub open spec fn multiples_defined(n: nat, points: Seq<CurvePoint>, a: Gf25) -> bool {
    forall|i: int| 0 <= i < points.len() ==> scalar_mul_defined(n, #[trigger] points[i], a)
}

} // verus!
