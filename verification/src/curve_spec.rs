//! The mathematical model of the curve `y² = x³ + a·x + b` over GF(5²) and
//! of its chord-and-tangent group law.

use vstd::prelude::*;
use crate::field_spec::element_text;
use crate::field_spec::Gf25;

verus! {

/// A point of the curve: the point at infinity, or a pair of coordinates.
pub enum CurvePoint {
    Identity,
    Affine { x: Gf25, y: Gf25 },
}

impl CurvePoint {
    /// The coordinates, if any, are canonical field elements.
    pub open spec fn canonical(self) -> bool {
        match self {
            CurvePoint::Identity => true,
            CurvePoint::Affine { x, y } => x.canonical() && y.canonical(),
        }
    }

    /// The point lies on the curve `y² = x³ + a·x + b`.
    pub open spec fn on_curve(self, a: Gf25, b: Gf25) -> bool {
        match self {
            CurvePoint::Identity => true,
            CurvePoint::Affine { x, y } => satisfies_equation(x, y, a, b),
        }
    }

    /// The mirror image `(x, −y)`, which is the inverse in the group.
    pub open spec fn neg(self) -> CurvePoint {
        match self {
            CurvePoint::Identity => CurvePoint::Identity,
            CurvePoint::Affine { x, y } => CurvePoint::Affine { x, y: y.neg() },
        }
    }

    /// The Frobenius endomorphism `(x, y) ↦ (x⁵, y⁵)`.
    pub open spec fn frobenius(self) -> CurvePoint {
        match self {
            CurvePoint::Identity => CurvePoint::Identity,
            CurvePoint::Affine { x, y } => CurvePoint::Affine {
                x: x.frobenius(),
                y: y.frobenius(),
            },
        }
    }
}

/// The point with coordinates `(x, y)`.
pub open spec fn affine(x: Gf25, y: Gf25) -> CurvePoint {
    CurvePoint::Affine { x, y }
}

/// The point is affine and its tangent is vertical: its `y` is zero.
pub open spec fn has_vertical_tangent(p: CurvePoint) -> bool {
    p matches CurvePoint::Affine { y, .. } && y == Gf25::zero()
}

/// The field element 2.
#[verifier::inline]
pub open spec fn two() -> Gf25 {
    Gf25 { re: 2, im: 0 }
}

/// The field element 3.
#[verifier::inline]
pub open spec fn three() -> Gf25 {
    Gf25 { re: 3, im: 0 }
}

/// The right-hand side `x³ + a·x + b` of the curve equation.
pub open spec fn curve_rhs(x: Gf25, a: Gf25, b: Gf25) -> Gf25 {
    x.mul(x).mul(x).add(a.mul(x)).add(b)
}

/// `(x, y)` solves `y² = x³ + a·x + b`.
pub open spec fn satisfies_equation(x: Gf25, y: Gf25, a: Gf25, b: Gf25) -> bool {
    y.mul(y) == curve_rhs(x, a, b)
}

/// The denominator `2·y` of the slope of the tangent at `(x, y)`.
pub open spec fn tangent_denominator(y: Gf25) -> Gf25 {
    y.mul(two())
}

/// The slope `(3x² + a) / (2y)` of the tangent at `(x, y)`.
#[verifier::opaque]
pub open spec fn tangent_slope(x: Gf25, y: Gf25, a: Gf25) -> Gf25 {
    x.mul(x).mul(three()).add(a).div(tangent_denominator(y))
}

/// The slope `(y₂ − y₁) / (x₂ − x₁)` of the chord through two points.
#[verifier::opaque]
pub open spec fn chord_slope(x1: Gf25, y1: Gf25, x2: Gf25, y2: Gf25) -> Gf25 {
    y2.sub(y1).div(x2.sub(x1))
}

/// The point `(x₃, y₃)` with `x₃ = λ² − x₁ − x₂` and `y₃ = λ(x₁ − x₃) − y₁`.
#[verifier::opaque]
pub open spec fn third_point(lambda: Gf25, x1: Gf25, y1: Gf25, x2: Gf25) -> CurvePoint {
    let x3 = lambda.mul(lambda).sub(x1).sub(x2);
    let y3 = lambda.mul(x1.sub(x3)).sub(y1);
    CurvePoint::Affine { x: x3, y: y3 }
}

/// The sum of two points. The point at infinity is neutral; two points
/// with the same `x` and different `y` cancel; a point added to itself is
/// doubled along its tangent; any other two are joined by their chord.
pub open spec fn curve_add(p: CurvePoint, q: CurvePoint, a: Gf25) -> CurvePoint {
    match (p, q) {
        (CurvePoint::Identity, _) => q,
        (_, CurvePoint::Identity) => p,
        (CurvePoint::Affine { x: x1, y: y1 }, CurvePoint::Affine { x: x2, y: y2 }) => {
            if x1 == x2 && y1 != y2 {
                CurvePoint::Identity
            } else if x1 == x2 {
                third_point(tangent_slope(x1, y1, a), x1, y1, x2)
            } else {
                third_point(chord_slope(x1, y1, x2, y2), x1, y1, x2)
            }
        },
    }
}

/// The sum of `p` and `q` needs no division by zero: where a slope is
/// taken, its denominator is not zero.
pub open spec fn add_defined(p: CurvePoint, q: CurvePoint) -> bool {
    match (p, q) {
        (CurvePoint::Affine { x: x1, y: y1 }, CurvePoint::Affine { x: x2, y: y2 }) => {
            if x1 == x2 && y1 != y2 {
                true
            } else if x1 == x2 {
                tangent_denominator(y1) != Gf25::zero()
            } else {
                x2.sub(x1) != Gf25::zero()
            }
        },
        _ => true,
    }
}

/// Double-and-add from the lowest bit of `k` upwards: for each bit, `base`
/// is added into `acc` if the bit is set, and `base` is doubled.
#[verifier::opaque]
pub open spec fn ladder(k: nat, base: CurvePoint, acc: CurvePoint, a: Gf25) -> CurvePoint
    decreases k,
{
    if k == 0 {
        acc
    } else {
        ladder(k / 2, curve_add(base, base, a), ladder_step(k, base, acc, a), a)
    }
}

/// What one round of the ladder makes of the accumulator.
pub open spec fn ladder_step(k: nat, base: CurvePoint, acc: CurvePoint, a: Gf25) -> CurvePoint {
    if k % 2 == 1 {
        curve_add(acc, base, a)
    } else {
        acc
    }
}

/// Every addition and doubling of `ladder(k, base, acc, a)` is defined.
#[verifier::opaque]
pub open spec fn ladder_defined(k: nat, base: CurvePoint, acc: CurvePoint, a: Gf25) -> bool
    decreases k,
{
    k == 0 || {
        &&& k % 2 == 1 ==> add_defined(acc, base)
        &&& add_defined(base, base)
        &&& ladder_defined(k / 2, curve_add(base, base, a), ladder_step(k, base, acc, a), a)
    }
}

/// The multiple `n·p`, by double-and-add.
pub open spec fn scalar_mul(n: nat, p: CurvePoint, a: Gf25) -> CurvePoint {
    ladder(n, p, CurvePoint::Identity, a)
}

/// Double-and-add of `n·p` divides by zero nowhere.
pub open spec fn scalar_mul_defined(n: nat, p: CurvePoint, a: Gf25) -> bool {
    ladder_defined(n, p, CurvePoint::Identity, a)
}

/// How a point is written: `(x, y)`, or `Point at infinity`.
pub open spec fn point_text(p: CurvePoint) -> Seq<char> {
    match p {
        CurvePoint::Identity => "Point at infinity"@,
        CurvePoint::Affine { x, y } => "("@ + element_text(x) + ", "@ + element_text(y) + ")"@,
    }
}

} // verus!
