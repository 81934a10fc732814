//! The addition table of the curve `y² = x³ + x + 1` over GF(5²).
//!
//! Each line adds two of the 26 affine points, `u1·G + v1·H` and
//! `u2·G + v2·H`, and finds `(u1 + u2)·G + (v1 + v2)·H`. A line for a chord
//! or a tangent names the inverse of the slope's denominator, and the slope.

use vstd::prelude::*;
use crate::field_spec::element;
use crate::field_spec::Gf25;
use crate::field_lemmas::lemma_inv_unique;
use crate::curve_spec::chord_slope;
use crate::curve_spec::curve_add;
use crate::curve_spec::tangent_denominator;
use crate::curve_spec::tangent_slope;
use crate::curve_spec::third_point;
use crate::curve_spec::three;
use crate::instance::combination;
use crate::instance::in_range;

verus! {

/// `u1·G + v1·H` and `u2·G + v2·H` add up to `(u1 + u2)·G + (v1 + v2)·H`.
#[verifier::opaque]
pub open spec fn sum_is(u1: int, v1: int, u2: int, v2: int) -> bool {
    curve_add(combination(u1, v1), combination(u2, v2), Gf25::one()) == combination(
        (u1 + u2) % 9,
        (v1 + v2) % 3,
    )
}

/// `u·G + v·H` comes no later than `u2·G + v2·H` in the table.
pub open spec fn no_later(u1: int, v1: int, u2: int, v2: int) -> bool {
    3 * u1 + v1 <= 3 * u2 + v2
}

/// The two points are mirror images of each other, and their coordinates
/// add up to zero.
pub open spec fn cancels(u1: int, v1: int, u2: int, v2: int) -> bool {
    let p = combination(u1, v1);
    let q = combination(u2, v2);
    &&& p is Affine
    &&& q is Affine
    &&& p->x == q->x
    &&& p->y != q->y
    &&& (u1 + u2) % 9 == 0
    &&& (v1 + v2) % 3 == 0
}

/// The chord through the two points has the slope `lambda`, which is the
/// difference of the `y` times the inverse `k` of the difference of the `x`,
/// and it meets the curve again in the mirror image of the point whose
/// coordinates are the sums.
pub open spec fn chord(u1: int, v1: int, u2: int, v2: int, k: Gf25, lambda: Gf25) -> bool {
    let p = combination(u1, v1);
    let q = combination(u2, v2);
    let r = combination((u1 + u2) % 9, (v1 + v2) % 3);
    &&& p is Affine
    &&& q is Affine
    &&& r is Affine
    &&& p->x != q->x
    &&& k.canonical()
    &&& q->x.sub(p->x).mul(k) == Gf25::one()
    &&& lambda == q->y.sub(p->y).mul(k)
    &&& r->x == lambda.mul(lambda).sub(p->x).sub(q->x)
    &&& r->y == lambda.mul(p->x.sub(r->x)).sub(p->y)
}

/// The tangent at the point `(x, y)` has the slope `lambda`, which is
/// `3x² + 1` times the inverse `k` of `2y`, and it meets the curve again in
/// the mirror image of the point whose coordinates are the doubles.
pub open spec fn tangent(u: int, v: int, x: Gf25, k: Gf25, lambda: Gf25) -> bool {
    let p = combination(u, v);
    let r = combination((u + u) % 9, (v + v) % 3);
    &&& p is Affine
    &&& r is Affine
    &&& p->x == x
    &&& k.canonical()
    &&& tangent_denominator(p->y).mul(k) == Gf25::one()
    &&& lambda == x.mul(x).mul(three()).add(Gf25::one()).mul(k)
    &&& r->x == lambda.mul(lambda).sub(x).sub(x)
    &&& r->y == lambda.mul(x.sub(r->x)).sub(p->y)
}

/// Mirror images add up to the point at infinity.
proof fn lemma_cancels(u1: int, v1: int, u2: int, v2: int)
    requires
        cancels(u1, v1, u2, v2),
    ensures
        sum_is(u1, v1, u2, v2),
{
    reveal(sum_is);
    reveal(combination);
}

/// Two points with different `x` add up along their chord.
proof fn lemma_chord(u1: int, v1: int, u2: int, v2: int, k: Gf25, lambda: Gf25)
    requires
        chord(u1, v1, u2, v2, k, lambda),
    ensures
        sum_is(u1, v1, u2, v2),
{
    reveal(sum_is);
    reveal(chord_slope);
    reveal(third_point);
    lemma_inv_unique(combination(u2, v2)->x.sub(combination(u1, v1)->x), k);
}

/// A point is doubled along its tangent.
proof fn lemma_tangent(u: int, v: int, x: Gf25, k: Gf25, lambda: Gf25)
    requires
        tangent(u, v, x, k, lambda),
    ensures
        sum_is(u, v, u, v),
{
    reveal(sum_is);
    reveal(tangent_slope);
    reveal(third_point);
    lemma_inv_unique(tangent_denominator(combination(u, v)->y), k);
}

/// The sums of `0·G + 1·H` with itself and with the points after it.
proof fn lemma_row_0_1(u: int, v: int)
    requires
        in_range(u, v),
        no_later(0, 1, u, v),
    ensures
        sum_is(0, 1, u, v),
{
    reveal(combination);
    assert(sum_is(0, 1, 0, 1)) by {
        lemma_tangent(0, 1, element(1, 0), element(0, 1), element(0, 4));
    }
    assert(sum_is(0, 1, 0, 2)) by {
        lemma_cancels(0, 1, 0, 2);
    }
    assert(sum_is(0, 1, 1, 0)) by {
        lemma_chord(0, 1, 1, 0, element(4, 0), element(4, 1));
    }
    assert(sum_is(0, 1, 1, 1)) by {
        lemma_chord(0, 1, 1, 1, element(1, 1), element(0, 2));
    }
    assert(sum_is(0, 1, 1, 2)) by {
        lemma_chord(0, 1, 1, 2, element(1, 4), element(1, 1));
    }
    assert(sum_is(0, 1, 2, 0)) by {
        lemma_chord(0, 1, 2, 0, element(2, 0), element(4, 3));
    }
    assert(sum_is(0, 1, 2, 1)) by {
        lemma_chord(0, 1, 2, 1, element(2, 1), element(0, 3));
    }
    assert(sum_is(0, 1, 2, 2)) by {
        lemma_chord(0, 1, 2, 2, element(2, 4), element(1, 3));
    }
    assert(sum_is(0, 1, 3, 0)) by {
        lemma_chord(0, 1, 3, 0, element(1, 0), element(1, 4));
    }
    assert(sum_is(0, 1, 3, 1)) by {
        lemma_chord(0, 1, 3, 1, element(0, 4), element(0, 1));
    }
    assert(sum_is(0, 1, 3, 2)) by {
        lemma_chord(0, 1, 3, 2, element(0, 1), element(4, 4));
    }
    assert(sum_is(0, 1, 4, 0)) by {
        lemma_chord(0, 1, 4, 0, element(3, 0), element(2, 2));
    }
    assert(sum_is(0, 1, 4, 1)) by {
        lemma_chord(0, 1, 4, 1, element(4, 3), element(0, 0));
    }
    assert(sum_is(0, 1, 4, 2)) by {
        lemma_chord(0, 1, 4, 2, element(4, 2), element(3, 2));
    }
    assert(sum_is(0, 1, 5, 0)) by {
        lemma_chord(0, 1, 5, 0, element(3, 0), element(3, 2));
    }
    assert(sum_is(0, 1, 5, 1)) by {
        lemma_chord(0, 1, 5, 1, element(4, 2), element(0, 0));
    }
    assert(sum_is(0, 1, 5, 2)) by {
        lemma_chord(0, 1, 5, 2, element(4, 3), element(2, 2));
    }
    assert(sum_is(0, 1, 6, 0)) by {
        lemma_chord(0, 1, 6, 0, element(1, 0), element(4, 4));
    }
    assert(sum_is(0, 1, 6, 1)) by {
        lemma_chord(0, 1, 6, 1, element(0, 1), element(0, 1));
    }
    assert(sum_is(0, 1, 6, 2)) by {
        lemma_chord(0, 1, 6, 2, element(0, 4), element(1, 4));
    }
    assert(sum_is(0, 1, 7, 0)) by {
        lemma_chord(0, 1, 7, 0, element(2, 0), element(1, 3));
    }
    assert(sum_is(0, 1, 7, 1)) by {
        lemma_chord(0, 1, 7, 1, element(2, 4), element(0, 3));
    }
    assert(sum_is(0, 1, 7, 2)) by {
        lemma_chord(0, 1, 7, 2, element(2, 1), element(4, 3));
    }
    assert(sum_is(0, 1, 8, 0)) by {
        lemma_chord(0, 1, 8, 0, element(4, 0), element(1, 1));
    }
    assert(sum_is(0, 1, 8, 1)) by {
        lemma_chord(0, 1, 8, 1, element(1, 4), element(0, 2));
    }
    assert(sum_is(0, 1, 8, 2)) by {
        lemma_chord(0, 1, 8, 2, element(1, 1), element(4, 1));
    }
}

/// The sums of `0·G + 2·H` with itself and with the points after it.
proof fn lemma_row_0_2(u: int, v: int)
    requires
        in_range(u, v),
        no_later(0, 2, u, v),
    ensures
        sum_is(0, 2, u, v),
{
    reveal(combination);
    assert(sum_is(0, 2, 0, 2)) by {
        lemma_tangent(0, 2, element(1, 0), element(0, 4), element(0, 1));
    }
    assert(sum_is(0, 2, 1, 0)) by {
        lemma_chord(0, 2, 1, 0, element(4, 0), element(4, 4));
    }
    assert(sum_is(0, 2, 1, 1)) by {
        lemma_chord(0, 2, 1, 1, element(1, 1), element(1, 4));
    }
    assert(sum_is(0, 2, 1, 2)) by {
        lemma_chord(0, 2, 1, 2, element(1, 4), element(0, 3));
    }
    assert(sum_is(0, 2, 2, 0)) by {
        lemma_chord(0, 2, 2, 0, element(2, 0), element(4, 2));
    }
    assert(sum_is(0, 2, 2, 1)) by {
        lemma_chord(0, 2, 2, 1, element(2, 1), element(1, 2));
    }
    assert(sum_is(0, 2, 2, 2)) by {
        lemma_chord(0, 2, 2, 2, element(2, 4), element(0, 2));
    }
    assert(sum_is(0, 2, 3, 0)) by {
        lemma_chord(0, 2, 3, 0, element(1, 0), element(1, 1));
    }
    assert(sum_is(0, 2, 3, 1)) by {
        lemma_chord(0, 2, 3, 1, element(0, 4), element(4, 1));
    }
    assert(sum_is(0, 2, 3, 2)) by {
        lemma_chord(0, 2, 3, 2, element(0, 1), element(0, 4));
    }
    assert(sum_is(0, 2, 4, 0)) by {
        lemma_chord(0, 2, 4, 0, element(3, 0), element(2, 3));
    }
    assert(sum_is(0, 2, 4, 1)) by {
        lemma_chord(0, 2, 4, 1, element(4, 3), element(3, 3));
    }
    assert(sum_is(0, 2, 4, 2)) by {
        lemma_chord(0, 2, 4, 2, element(4, 2), element(0, 0));
    }
    assert(sum_is(0, 2, 5, 0)) by {
        lemma_chord(0, 2, 5, 0, element(3, 0), element(3, 3));
    }
    assert(sum_is(0, 2, 5, 1)) by {
        lemma_chord(0, 2, 5, 1, element(4, 2), element(2, 3));
    }
    assert(sum_is(0, 2, 5, 2)) by {
        lemma_chord(0, 2, 5, 2, element(4, 3), element(0, 0));
    }
    assert(sum_is(0, 2, 6, 0)) by {
        lemma_chord(0, 2, 6, 0, element(1, 0), element(4, 1));
    }
    assert(sum_is(0, 2, 6, 1)) by {
        lemma_chord(0, 2, 6, 1, element(0, 1), element(1, 1));
    }
    assert(sum_is(0, 2, 6, 2)) by {
        lemma_chord(0, 2, 6, 2, element(0, 4), element(0, 4));
    }
    assert(sum_is(0, 2, 7, 0)) by {
        lemma_chord(0, 2, 7, 0, element(2, 0), element(1, 2));
    }
    assert(sum_is(0, 2, 7, 1)) by {
        lemma_chord(0, 2, 7, 1, element(2, 4), element(4, 2));
    }
    assert(sum_is(0, 2, 7, 2)) by {
        lemma_chord(0, 2, 7, 2, element(2, 1), element(0, 2));
    }
    assert(sum_is(0, 2, 8, 0)) by {
        lemma_chord(0, 2, 8, 0, element(4, 0), element(1, 4));
    }
    assert(sum_is(0, 2, 8, 1)) by {
        lemma_chord(0, 2, 8, 1, element(1, 4), element(4, 4));
    }
    assert(sum_is(0, 2, 8, 2)) by {
        lemma_chord(0, 2, 8, 2, element(1, 1), element(0, 3));
    }
}

/// The sums of `1·G + 0·H` with itself and with the points after it.
proof fn lemma_row_1_0(u: int, v: int)
    requires
        in_range(u, v),
        no_later(1, 0, u, v),
    ensures
        sum_is(1, 0, u, v),
{
    reveal(combination);
    assert(sum_is(1, 0, 1, 0)) by {
        lemma_tangent(1, 0, element(0, 0), element(3, 0), element(3, 0));
    }
    assert(sum_is(1, 0, 1, 1)) by {
        lemma_chord(1, 0, 1, 1, element(4, 1), element(3, 2));
    }
    assert(sum_is(1, 0, 1, 2)) by {
        lemma_chord(1, 0, 1, 2, element(4, 4), element(3, 3));
    }
    assert(sum_is(1, 0, 2, 0)) by {
        lemma_chord(1, 0, 2, 0, element(4, 0), element(4, 0));
    }
    assert(sum_is(1, 0, 2, 1)) by {
        lemma_chord(1, 0, 2, 1, element(3, 1), element(1, 1));
    }
    assert(sum_is(1, 0, 2, 2)) by {
        lemma_chord(1, 0, 2, 2, element(3, 4), element(1, 4));
    }
    assert(sum_is(1, 0, 3, 0)) by {
        lemma_chord(1, 0, 3, 0, element(3, 0), element(0, 0));
    }
    assert(sum_is(1, 0, 3, 1)) by {
        lemma_chord(1, 0, 3, 1, element(4, 3), element(1, 3));
    }
    assert(sum_is(1, 0, 3, 2)) by {
        lemma_chord(1, 0, 3, 2, element(4, 2), element(1, 2));
    }
    assert(sum_is(1, 0, 4, 0)) by {
        lemma_chord(1, 0, 4, 0, element(2, 0), element(1, 0));
    }
    assert(sum_is(1, 0, 4, 1)) by {
        lemma_chord(1, 0, 4, 1, element(1, 1), element(2, 0));
    }
    assert(sum_is(1, 0, 4, 2)) by {
        lemma_chord(1, 0, 4, 2, element(1, 4), element(2, 0));
    }
    assert(sum_is(1, 0, 5, 0)) by {
        lemma_chord(1, 0, 5, 0, element(2, 0), element(0, 0));
    }
    assert(sum_is(1, 0, 5, 1)) by {
        lemma_chord(1, 0, 5, 1, element(1, 4), element(1, 2));
    }
    assert(sum_is(1, 0, 5, 2)) by {
        lemma_chord(1, 0, 5, 2, element(1, 1), element(1, 3));
    }
    assert(sum_is(1, 0, 6, 0)) by {
        lemma_chord(1, 0, 6, 0, element(3, 0), element(4, 0));
    }
    assert(sum_is(1, 0, 6, 1)) by {
        lemma_chord(1, 0, 6, 1, element(4, 2), element(1, 4));
    }
    assert(sum_is(1, 0, 6, 2)) by {
        lemma_chord(1, 0, 6, 2, element(4, 3), element(1, 1));
    }
    assert(sum_is(1, 0, 7, 0)) by {
        lemma_chord(1, 0, 7, 0, element(4, 0), element(3, 0));
    }
    assert(sum_is(1, 0, 7, 1)) by {
        lemma_chord(1, 0, 7, 1, element(3, 4), element(3, 3));
    }
    assert(sum_is(1, 0, 7, 2)) by {
        lemma_chord(1, 0, 7, 2, element(3, 1), element(3, 2));
    }
    assert(sum_is(1, 0, 8, 0)) by {
        lemma_cancels(1, 0, 8, 0);
    }
    assert(sum_is(1, 0, 8, 1)) by {
        lemma_chord(1, 0, 8, 1, element(4, 4), element(4, 4));
    }
    assert(sum_is(1, 0, 8, 2)) by {
        lemma_chord(1, 0, 8, 2, element(4, 1), element(4, 1));
    }
}

/// The sums of `1·G + 1·H` with itself and with the points after it.
proof fn lemma_row_1_1(u: int, v: int)
    requires
        in_range(u, v),
        no_later(1, 1, u, v),
    ensures
        sum_is(1, 1, u, v),
{
    reveal(combination);
    assert(sum_is(1, 1, 1, 1)) by {
        lemma_tangent(1, 1, element(3, 3), element(1, 0), element(4, 4));
    }
    assert(sum_is(1, 1, 1, 2)) by {
        lemma_chord(1, 1, 1, 2, element(0, 3), element(0, 0));
    }
    assert(sum_is(1, 1, 2, 0)) by {
        lemma_chord(1, 1, 2, 0, element(4, 2), element(1, 3));
    }
    assert(sum_is(1, 1, 2, 1)) by {
        lemma_chord(1, 1, 2, 1, element(0, 2), element(2, 1));
    }
    assert(sum_is(1, 1, 2, 2)) by {
        lemma_chord(1, 1, 2, 2, element(0, 4), element(1, 2));
    }
    assert(sum_is(1, 1, 3, 0)) by {
        lemma_chord(1, 1, 3, 0, element(1, 2), element(3, 1));
    }
    assert(sum_is(1, 1, 3, 1)) by {
        lemma_chord(1, 1, 3, 1, element(2, 0), element(2, 2));
    }
    assert(sum_is(1, 1, 3, 2)) by {
        lemma_chord(1, 1, 3, 2, element(3, 1), element(0, 3));
    }
    assert(sum_is(1, 1, 4, 0)) by {
        lemma_chord(1, 1, 4, 0, element(0, 1), element(0, 1));
    }
    assert(sum_is(1, 1, 4, 1)) by {
        lemma_chord(1, 1, 4, 1, element(4, 0), element(3, 4));
    }
    assert(sum_is(1, 1, 4, 2)) by {
        lemma_chord(1, 1, 4, 2, element(3, 2), element(0, 1));
    }
    assert(sum_is(1, 1, 5, 0)) by {
        lemma_chord(1, 1, 5, 0, element(0, 1), element(0, 3));
    }
    assert(sum_is(1, 1, 5, 1)) by {
        lemma_chord(1, 1, 5, 1, element(3, 2), element(2, 2));
    }
    assert(sum_is(1, 1, 5, 2)) by {
        lemma_chord(1, 1, 5, 2, element(4, 0), element(3, 1));
    }
    assert(sum_is(1, 1, 6, 0)) by {
        lemma_chord(1, 1, 6, 0, element(1, 2), element(1, 2));
    }
    assert(sum_is(1, 1, 6, 1)) by {
        lemma_chord(1, 1, 6, 1, element(3, 1), element(2, 1));
    }
    assert(sum_is(1, 1, 6, 2)) by {
        lemma_chord(1, 1, 6, 2, element(2, 0), element(1, 3));
    }
    assert(sum_is(1, 1, 7, 0)) by {
        lemma_chord(1, 1, 7, 0, element(4, 2), element(0, 0));
    }
    assert(sum_is(1, 1, 7, 1)) by {
        lemma_chord(1, 1, 7, 1, element(0, 4), element(4, 4));
    }
    assert(sum_is(1, 1, 7, 2)) by {
        lemma_chord(1, 1, 7, 2, element(0, 2), element(3, 2));
    }
    assert(sum_is(1, 1, 8, 0)) by {
        lemma_chord(1, 1, 8, 0, element(1, 4), element(1, 4));
    }
    assert(sum_is(1, 1, 8, 1)) by {
        lemma_chord(1, 1, 8, 1, element(0, 3), element(0, 2));
    }
    assert(sum_is(1, 1, 8, 2)) by {
        lemma_cancels(1, 1, 8, 2);
    }
}

/// The sums of `1·G + 2·H` with itself and with the points after it.
proof fn lemma_row_1_2(u: int, v: int)
    requires
        in_range(u, v),
        no_later(1, 2, u, v),
    ensures
        sum_is(1, 2, u, v),
{
    reveal(combination);
    assert(sum_is(1, 2, 1, 2)) by {
        lemma_tangent(1, 2, element(3, 2), element(1, 0), element(4, 1));
    }
    assert(sum_is(1, 2, 2, 0)) by {
        lemma_chord(1, 2, 2, 0, element(4, 3), element(1, 2));
    }
    assert(sum_is(1, 2, 2, 1)) by {
        lemma_chord(1, 2, 2, 1, element(0, 1), element(1, 3));
    }
    assert(sum_is(1, 2, 2, 2)) by {
        lemma_chord(1, 2, 2, 2, element(0, 3), element(2, 4));
    }
    assert(sum_is(1, 2, 3, 0)) by {
        lemma_chord(1, 2, 3, 0, element(1, 3), element(3, 4));
    }
    assert(sum_is(1, 2, 3, 1)) by {
        lemma_chord(1, 2, 3, 1, element(3, 4), element(0, 2));
    }
    assert(sum_is(1, 2, 3, 2)) by {
        lemma_chord(1, 2, 3, 2, element(2, 0), element(2, 3));
    }
    assert(sum_is(1, 2, 4, 0)) by {
        lemma_chord(1, 2, 4, 0, element(0, 4), element(0, 4));
    }
    assert(sum_is(1, 2, 4, 1)) by {
        lemma_chord(1, 2, 4, 1, element(3, 3), element(0, 4));
    }
    assert(sum_is(1, 2, 4, 2)) by {
        lemma_chord(1, 2, 4, 2, element(4, 0), element(3, 1));
    }
    assert(sum_is(1, 2, 5, 0)) by {
        lemma_chord(1, 2, 5, 0, element(0, 4), element(0, 2));
    }
    assert(sum_is(1, 2, 5, 1)) by {
        lemma_chord(1, 2, 5, 1, element(4, 0), element(3, 4));
    }
    assert(sum_is(1, 2, 5, 2)) by {
        lemma_chord(1, 2, 5, 2, element(3, 3), element(2, 3));
    }
    assert(sum_is(1, 2, 6, 0)) by {
        lemma_chord(1, 2, 6, 0, element(1, 3), element(1, 3));
    }
    assert(sum_is(1, 2, 6, 1)) by {
        lemma_chord(1, 2, 6, 1, element(2, 0), element(1, 2));
    }
    assert(sum_is(1, 2, 6, 2)) by {
        lemma_chord(1, 2, 6, 2, element(3, 4), element(2, 4));
    }
    assert(sum_is(1, 2, 7, 0)) by {
        lemma_chord(1, 2, 7, 0, element(4, 3), element(0, 0));
    }
    assert(sum_is(1, 2, 7, 1)) by {
        lemma_chord(1, 2, 7, 1, element(0, 3), element(3, 3));
    }
    assert(sum_is(1, 2, 7, 2)) by {
        lemma_chord(1, 2, 7, 2, element(0, 1), element(4, 1));
    }
    assert(sum_is(1, 2, 8, 0)) by {
        lemma_chord(1, 2, 8, 0, element(1, 1), element(1, 1));
    }
    assert(sum_is(1, 2, 8, 1)) by {
        lemma_cancels(1, 2, 8, 1);
    }
    assert(sum_is(1, 2, 8, 2)) by {
        lemma_chord(1, 2, 8, 2, element(0, 2), element(0, 3));
    }
}

/// The sums of `2·G + 0·H` with itself and with the points after it.
proof fn lemma_row_2_0(u: int, v: int)
    requires
        in_range(u, v),
        no_later(2, 0, u, v),
    ensures
        sum_is(2, 0, u, v),
{
    reveal(combination);
    assert(sum_is(2, 0, 2, 0)) by {
        lemma_tangent(2, 0, element(4, 0), element(4, 0), element(1, 0));
    }
    assert(sum_is(2, 0, 2, 1)) by {
        lemma_chord(2, 0, 2, 1, element(3, 2), element(4, 4));
    }
    assert(sum_is(2, 0, 2, 2)) by {
        lemma_chord(2, 0, 2, 2, element(3, 3), element(4, 1));
    }
    assert(sum_is(2, 0, 3, 0)) by {
        lemma_chord(2, 0, 3, 0, element(2, 0), element(3, 0));
    }
    assert(sum_is(2, 0, 3, 1)) by {
        lemma_chord(2, 0, 3, 1, element(1, 1), element(0, 3));
    }
    assert(sum_is(2, 0, 3, 2)) by {
        lemma_chord(2, 0, 3, 2, element(1, 4), element(0, 2));
    }
    assert(sum_is(2, 0, 4, 0)) by {
        lemma_chord(2, 0, 4, 0, element(4, 0), element(3, 0));
    }
    assert(sum_is(2, 0, 4, 1)) by {
        lemma_chord(2, 0, 4, 1, element(4, 1), element(0, 2));
    }
    assert(sum_is(2, 0, 4, 2)) by {
        lemma_chord(2, 0, 4, 2, element(4, 4), element(0, 3));
    }
    assert(sum_is(2, 0, 5, 0)) by {
        lemma_chord(2, 0, 5, 0, element(4, 0), element(1, 0));
    }
    assert(sum_is(2, 0, 5, 1)) by {
        lemma_chord(2, 0, 5, 1, element(4, 4), element(4, 1));
    }
    assert(sum_is(2, 0, 5, 2)) by {
        lemma_chord(2, 0, 5, 2, element(4, 1), element(4, 4));
    }
    assert(sum_is(2, 0, 6, 0)) by {
        lemma_chord(2, 0, 6, 0, element(2, 0), element(4, 0));
    }
    assert(sum_is(2, 0, 6, 1)) by {
        lemma_chord(2, 0, 6, 1, element(1, 4), element(1, 2));
    }
    assert(sum_is(2, 0, 6, 2)) by {
        lemma_chord(2, 0, 6, 2, element(1, 1), element(1, 3));
    }
    assert(sum_is(2, 0, 7, 0)) by {
        lemma_cancels(2, 0, 7, 0);
    }
    assert(sum_is(2, 0, 7, 1)) by {
        lemma_chord(2, 0, 7, 1, element(3, 3), element(4, 2));
    }
    assert(sum_is(2, 0, 7, 2)) by {
        lemma_chord(2, 0, 7, 2, element(3, 2), element(4, 3));
    }
    assert(sum_is(2, 0, 8, 0)) by {
        lemma_chord(2, 0, 8, 0, element(1, 0), element(2, 0));
    }
    assert(sum_is(2, 0, 8, 1)) by {
        lemma_chord(2, 0, 8, 1, element(1, 2), element(0, 0));
    }
    assert(sum_is(2, 0, 8, 2)) by {
        lemma_chord(2, 0, 8, 2, element(1, 3), element(0, 0));
    }
}

/// The sums of `2·G + 1·H` with itself and with the points after it.
proof fn lemma_row_2_1(u: int, v: int)
    requires
        in_range(u, v),
        no_later(2, 1, u, v),
    ensures
        sum_is(2, 1, u, v),
{
    reveal(combination);
    assert(sum_is(2, 1, 2, 1)) by {
        lemma_tangent(2, 1, element(3, 4), element(2, 1), element(0, 1));
    }
    assert(sum_is(2, 1, 2, 2)) by {
        lemma_chord(2, 1, 2, 2, element(0, 1), element(3, 0));
    }
    assert(sum_is(2, 1, 3, 0)) by {
        lemma_chord(2, 1, 3, 0, element(3, 3), element(2, 4));
    }
    assert(sum_is(2, 1, 3, 1)) by {
        lemma_chord(2, 1, 3, 1, element(3, 1), element(1, 0));
    }
    assert(sum_is(2, 1, 3, 2)) by {
        lemma_chord(2, 1, 3, 2, element(4, 1), element(3, 1));
    }
    assert(sum_is(2, 1, 4, 0)) by {
        lemma_chord(2, 1, 4, 0, element(0, 2), element(3, 1));
    }
    assert(sum_is(2, 1, 4, 1)) by {
        lemma_chord(2, 1, 4, 1, element(3, 2), element(1, 0));
    }
    assert(sum_is(2, 1, 4, 2)) by {
        lemma_chord(2, 1, 4, 2, element(1, 3), element(2, 4));
    }
    assert(sum_is(2, 1, 5, 0)) by {
        lemma_chord(2, 1, 5, 0, element(0, 2), element(3, 0));
    }
    assert(sum_is(2, 1, 5, 1)) by {
        lemma_chord(2, 1, 5, 1, element(1, 3), element(0, 1));
    }
    assert(sum_is(2, 1, 5, 2)) by {
        lemma_chord(2, 1, 5, 2, element(3, 2), element(4, 4));
    }
    assert(sum_is(2, 1, 6, 0)) by {
        lemma_chord(2, 1, 6, 0, element(3, 3), element(1, 3));
    }
    assert(sum_is(2, 1, 6, 1)) by {
        lemma_chord(2, 1, 6, 1, element(4, 1), element(2, 1));
    }
    assert(sum_is(2, 1, 6, 2)) by {
        lemma_chord(2, 1, 6, 2, element(3, 1), element(1, 1));
    }
    assert(sum_is(2, 1, 7, 0)) by {
        lemma_chord(2, 1, 7, 0, element(2, 3), element(1, 2));
    }
    assert(sum_is(2, 1, 7, 1)) by {
        lemma_chord(2, 1, 7, 1, element(0, 1), element(0, 3));
    }
    assert(sum_is(2, 1, 7, 2)) by {
        lemma_cancels(2, 1, 7, 2);
    }
    assert(sum_is(2, 1, 8, 0)) by {
        lemma_chord(2, 1, 8, 0, element(2, 4), element(2, 3));
    }
    assert(sum_is(2, 1, 8, 1)) by {
        lemma_chord(2, 1, 8, 1, element(0, 4), element(1, 4));
    }
    assert(sum_is(2, 1, 8, 2)) by {
        lemma_chord(2, 1, 8, 2, element(0, 3), element(2, 3));
    }
}

/// The sums of `2·G + 2·H` with itself and with the points after it.
proof fn lemma_row_2_2(u: int, v: int)
    requires
        in_range(u, v),
        no_later(2, 2, u, v),
    ensures
        sum_is(2, 2, u, v),
{
    reveal(combination);
    assert(sum_is(2, 2, 2, 2)) by {
        lemma_tangent(2, 2, element(3, 1), element(2, 4), element(0, 4));
    }
    assert(sum_is(2, 2, 3, 0)) by {
        lemma_chord(2, 2, 3, 0, element(3, 2), element(2, 1));
    }
    assert(sum_is(2, 2, 3, 1)) by {
        lemma_chord(2, 2, 3, 1, element(4, 4), element(3, 4));
    }
    assert(sum_is(2, 2, 3, 2)) by {
        lemma_chord(2, 2, 3, 2, element(3, 4), element(1, 0));
    }
    assert(sum_is(2, 2, 4, 0)) by {
        lemma_chord(2, 2, 4, 0, element(0, 3), element(3, 4));
    }
    assert(sum_is(2, 2, 4, 1)) by {
        lemma_chord(2, 2, 4, 1, element(1, 2), element(2, 1));
    }
    assert(sum_is(2, 2, 4, 2)) by {
        lemma_chord(2, 2, 4, 2, element(3, 3), element(1, 0));
    }
    assert(sum_is(2, 2, 5, 0)) by {
        lemma_chord(2, 2, 5, 0, element(0, 3), element(3, 0));
    }
    assert(sum_is(2, 2, 5, 1)) by {
        lemma_chord(2, 2, 5, 1, element(3, 3), element(4, 1));
    }
    assert(sum_is(2, 2, 5, 2)) by {
        lemma_chord(2, 2, 5, 2, element(1, 2), element(0, 4));
    }
    assert(sum_is(2, 2, 6, 0)) by {
        lemma_chord(2, 2, 6, 0, element(3, 2), element(1, 2));
    }
    assert(sum_is(2, 2, 6, 1)) by {
        lemma_chord(2, 2, 6, 1, element(3, 4), element(1, 4));
    }
    assert(sum_is(2, 2, 6, 2)) by {
        lemma_chord(2, 2, 6, 2, element(4, 4), element(2, 4));
    }
    assert(sum_is(2, 2, 7, 0)) by {
        lemma_chord(2, 2, 7, 0, element(2, 2), element(1, 3));
    }
    assert(sum_is(2, 2, 7, 1)) by {
        lemma_cancels(2, 2, 7, 1);
    }
    assert(sum_is(2, 2, 7, 2)) by {
        lemma_chord(2, 2, 7, 2, element(0, 4), element(0, 2));
    }
    assert(sum_is(2, 2, 8, 0)) by {
        lemma_chord(2, 2, 8, 0, element(2, 1), element(2, 2));
    }
    assert(sum_is(2, 2, 8, 1)) by {
        lemma_chord(2, 2, 8, 1, element(0, 2), element(2, 2));
    }
    assert(sum_is(2, 2, 8, 2)) by {
        lemma_chord(2, 2, 8, 2, element(0, 1), element(1, 1));
    }
}

/// The sums of `3·G + 0·H` with itself and with the points after it.
proof fn lemma_row_3_0(u: int, v: int)
    requires
        in_range(u, v),
        no_later(3, 0, u, v),
    ensures
        sum_is(3, 0, u, v),
{
    reveal(combination);
    assert(sum_is(3, 0, 3, 0)) by {
        lemma_tangent(3, 0, element(2, 0), element(3, 0), element(4, 0));
    }
    assert(sum_is(3, 0, 3, 1)) by {
        lemma_chord(3, 0, 3, 1, element(1, 3), element(2, 0));
    }
    assert(sum_is(3, 0, 3, 2)) by {
        lemma_chord(3, 0, 3, 2, element(1, 2), element(2, 0));
    }
    assert(sum_is(3, 0, 4, 0)) by {
        lemma_chord(3, 0, 4, 0, element(1, 0), element(3, 0));
    }
    assert(sum_is(3, 0, 4, 1)) by {
        lemma_chord(3, 0, 4, 1, element(0, 4), element(2, 1));
    }
    assert(sum_is(3, 0, 4, 2)) by {
        lemma_chord(3, 0, 4, 2, element(0, 1), element(2, 4));
    }
    assert(sum_is(3, 0, 5, 0)) by {
        lemma_chord(3, 0, 5, 0, element(1, 0), element(0, 0));
    }
    assert(sum_is(3, 0, 5, 1)) by {
        lemma_chord(3, 0, 5, 1, element(0, 1), element(3, 4));
    }
    assert(sum_is(3, 0, 5, 2)) by {
        lemma_chord(3, 0, 5, 2, element(0, 4), element(3, 1));
    }
    assert(sum_is(3, 0, 6, 0)) by {
        lemma_cancels(3, 0, 6, 0);
    }
    assert(sum_is(3, 0, 6, 1)) by {
        lemma_chord(3, 0, 6, 1, element(1, 2), element(1, 1));
    }
    assert(sum_is(3, 0, 6, 2)) by {
        lemma_chord(3, 0, 6, 2, element(1, 3), element(1, 4));
    }
    assert(sum_is(3, 0, 7, 0)) by {
        lemma_chord(3, 0, 7, 0, element(3, 0), element(1, 0));
    }
    assert(sum_is(3, 0, 7, 1)) by {
        lemma_chord(3, 0, 7, 1, element(2, 3), element(4, 3));
    }
    assert(sum_is(3, 0, 7, 2)) by {
        lemma_chord(3, 0, 7, 2, element(2, 2), element(4, 2));
    }
    assert(sum_is(3, 0, 8, 0)) by {
        lemma_chord(3, 0, 8, 0, element(2, 0), element(1, 0));
    }
    assert(sum_is(3, 0, 8, 1)) by {
        lemma_chord(3, 0, 8, 1, element(4, 2), element(4, 2));
    }
    assert(sum_is(3, 0, 8, 2)) by {
        lemma_chord(3, 0, 8, 2, element(4, 3), element(4, 3));
    }
}

/// The sums of `3·G + 1·H` with itself and with the points after it.
proof fn lemma_row_3_1(u: int, v: int)
    requires
        in_range(u, v),
        no_later(3, 1, u, v),
    ensures
        sum_is(3, 1, u, v),
{
    reveal(combination);
    assert(sum_is(3, 1, 3, 1)) by {
        lemma_tangent(3, 1, element(1, 3), element(4, 4), element(1, 2));
    }
    assert(sum_is(3, 1, 3, 2)) by {
        lemma_chord(3, 1, 3, 2, element(0, 3), element(2, 0));
    }
    assert(sum_is(3, 1, 4, 0)) by {
        lemma_chord(3, 1, 4, 0, element(1, 4), element(3, 4));
    }
    assert(sum_is(3, 1, 4, 1)) by {
        lemma_chord(3, 1, 4, 1, element(1, 0), element(1, 0));
    }
    assert(sum_is(3, 1, 4, 2)) by {
        lemma_chord(3, 1, 4, 2, element(2, 2), element(0, 3));
    }
    assert(sum_is(3, 1, 5, 0)) by {
        lemma_chord(3, 1, 5, 0, element(1, 4), element(0, 2));
    }
    assert(sum_is(3, 1, 5, 1)) by {
        lemma_chord(3, 1, 5, 1, element(2, 2), element(2, 2));
    }
    assert(sum_is(3, 1, 5, 2)) by {
        lemma_chord(3, 1, 5, 2, element(1, 0), element(1, 3));
    }
    assert(sum_is(3, 1, 6, 0)) by {
        lemma_chord(3, 1, 6, 0, element(4, 2), element(4, 1));
    }
    assert(sum_is(3, 1, 6, 1)) by {
        lemma_chord(3, 1, 6, 1, element(0, 3), element(0, 1));
    }
    assert(sum_is(3, 1, 6, 2)) by {
        lemma_cancels(3, 1, 6, 2);
    }
    assert(sum_is(3, 1, 7, 0)) by {
        lemma_chord(3, 1, 7, 0, element(4, 4), element(4, 2));
    }
    assert(sum_is(3, 1, 7, 1)) by {
        lemma_chord(3, 1, 7, 1, element(1, 1), element(3, 1));
    }
    assert(sum_is(3, 1, 7, 2)) by {
        lemma_chord(3, 1, 7, 2, element(2, 4), element(4, 4));
    }
    assert(sum_is(3, 1, 8, 0)) by {
        lemma_chord(3, 1, 8, 0, element(1, 2), element(4, 4));
    }
    assert(sum_is(3, 1, 8, 1)) by {
        lemma_chord(3, 1, 8, 1, element(2, 1), element(3, 1));
    }
    assert(sum_is(3, 1, 8, 2)) by {
        lemma_chord(3, 1, 8, 2, element(3, 0), element(4, 2));
    }
}

/// The sums of `3·G + 2·H` with itself and with the points after it.
proof fn lemma_row_3_2(u: int, v: int)
    requires
        in_range(u, v),
        no_later(3, 2, u, v),
    ensures
        sum_is(3, 2, u, v),
{
    reveal(combination);
    assert(sum_is(3, 2, 3, 2)) by {
        lemma_tangent(3, 2, element(1, 2), element(4, 1), element(1, 3));
    }
    assert(sum_is(3, 2, 4, 0)) by {
        lemma_chord(3, 2, 4, 0, element(1, 1), element(3, 1));
    }
    assert(sum_is(3, 2, 4, 1)) by {
        lemma_chord(3, 2, 4, 1, element(2, 3), element(0, 2));
    }
    assert(sum_is(3, 2, 4, 2)) by {
        lemma_chord(3, 2, 4, 2, element(1, 0), element(1, 0));
    }
    assert(sum_is(3, 2, 5, 0)) by {
        lemma_chord(3, 2, 5, 0, element(1, 1), element(0, 3));
    }
    assert(sum_is(3, 2, 5, 1)) by {
        lemma_chord(3, 2, 5, 1, element(1, 0), element(1, 2));
    }
    assert(sum_is(3, 2, 5, 2)) by {
        lemma_chord(3, 2, 5, 2, element(2, 3), element(2, 3));
    }
    assert(sum_is(3, 2, 6, 0)) by {
        lemma_chord(3, 2, 6, 0, element(4, 3), element(4, 4));
    }
    assert(sum_is(3, 2, 6, 1)) by {
        lemma_cancels(3, 2, 6, 1);
    }
    assert(sum_is(3, 2, 6, 2)) by {
        lemma_chord(3, 2, 6, 2, element(0, 2), element(0, 4));
    }
    assert(sum_is(3, 2, 7, 0)) by {
        lemma_chord(3, 2, 7, 0, element(4, 1), element(4, 3));
    }
    assert(sum_is(3, 2, 7, 1)) by {
        lemma_chord(3, 2, 7, 1, element(2, 1), element(4, 1));
    }
    assert(sum_is(3, 2, 7, 2)) by {
        lemma_chord(3, 2, 7, 2, element(1, 4), element(3, 4));
    }
    assert(sum_is(3, 2, 8, 0)) by {
        lemma_chord(3, 2, 8, 0, element(1, 3), element(4, 1));
    }
    assert(sum_is(3, 2, 8, 1)) by {
        lemma_chord(3, 2, 8, 1, element(3, 0), element(4, 3));
    }
    assert(sum_is(3, 2, 8, 2)) by {
        lemma_chord(3, 2, 8, 2, element(2, 4), element(3, 4));
    }
}

/// The sums of `4·G + 0·H` with itself and with the points after it.
proof fn lemma_row_4_0(u: int, v: int)
    requires
        in_range(u, v),
        no_later(4, 0, u, v),
    ensures
        sum_is(4, 0, u, v),
{
    reveal(combination);
    assert(sum_is(4, 0, 4, 0)) by {
        lemma_tangent(4, 0, element(3, 0), element(2, 0), element(1, 0));
    }
    assert(sum_is(4, 0, 4, 1)) by {
        lemma_chord(4, 0, 4, 1, element(1, 3), element(0, 4));
    }
    assert(sum_is(4, 0, 4, 2)) by {
        lemma_chord(4, 0, 4, 2, element(1, 2), element(0, 1));
    }
    assert(sum_is(4, 0, 5, 0)) by {
        lemma_cancels(4, 0, 5, 0);
    }
    assert(sum_is(4, 0, 5, 1)) by {
        lemma_chord(4, 0, 5, 1, element(1, 2), element(2, 3));
    }
    assert(sum_is(4, 0, 5, 2)) by {
        lemma_chord(4, 0, 5, 2, element(1, 3), element(2, 2));
    }
    assert(sum_is(4, 0, 6, 0)) by {
        lemma_chord(4, 0, 6, 0, element(4, 0), element(0, 0));
    }
    assert(sum_is(4, 0, 6, 1)) by {
        lemma_chord(4, 0, 6, 1, element(4, 4), element(0, 2));
    }
    assert(sum_is(4, 0, 6, 2)) by {
        lemma_chord(4, 0, 6, 2, element(4, 1), element(0, 3));
    }
    assert(sum_is(4, 0, 7, 0)) by {
        lemma_chord(4, 0, 7, 0, element(1, 0), element(4, 0));
    }
    assert(sum_is(4, 0, 7, 1)) by {
        lemma_chord(4, 0, 7, 1, element(0, 2), element(2, 0));
    }
    assert(sum_is(4, 0, 7, 2)) by {
        lemma_chord(4, 0, 7, 2, element(0, 3), element(2, 0));
    }
    assert(sum_is(4, 0, 8, 0)) by {
        lemma_chord(4, 0, 8, 0, element(3, 0), element(0, 0));
    }
    assert(sum_is(4, 0, 8, 1)) by {
        lemma_chord(4, 0, 8, 1, element(0, 1), element(0, 3));
    }
    assert(sum_is(4, 0, 8, 2)) by {
        lemma_chord(4, 0, 8, 2, element(0, 4), element(0, 2));
    }
}

/// The sums of `4·G + 1·H` with itself and with the points after it.
proof fn lemma_row_4_1(u: int, v: int)
    requires
        in_range(u, v),
        no_later(4, 1, u, v),
    ensures
        sum_is(4, 1, u, v),
{
    reveal(combination);
    assert(sum_is(4, 1, 4, 1)) by {
        lemma_tangent(4, 1, element(2, 3), element(0, 1), element(3, 4));
    }
    assert(sum_is(4, 1, 4, 2)) by {
        lemma_chord(4, 1, 4, 2, element(0, 3), element(2, 0));
    }
    assert(sum_is(4, 1, 5, 0)) by {
        lemma_chord(4, 1, 5, 0, element(4, 2), element(3, 3));
    }
    assert(sum_is(4, 1, 5, 1)) by {
        lemma_chord(4, 1, 5, 1, element(0, 3), element(0, 0));
    }
    assert(sum_is(4, 1, 5, 2)) by {
        lemma_cancels(4, 1, 5, 2);
    }
    assert(sum_is(4, 1, 6, 0)) by {
        lemma_chord(4, 1, 6, 0, element(0, 1), element(2, 4));
    }
    assert(sum_is(4, 1, 6, 1)) by {
        lemma_chord(4, 1, 6, 1, element(3, 2), element(3, 2));
    }
    assert(sum_is(4, 1, 6, 2)) by {
        lemma_chord(4, 1, 6, 2, element(4, 0), element(4, 2));
    }
    assert(sum_is(4, 1, 7, 0)) by {
        lemma_chord(4, 1, 7, 0, element(1, 4), element(1, 1));
    }
    assert(sum_is(4, 1, 7, 1)) by {
        lemma_chord(4, 1, 7, 1, element(4, 3), element(0, 1));
    }
    assert(sum_is(4, 1, 7, 2)) by {
        lemma_chord(4, 1, 7, 2, element(2, 3), element(1, 1));
    }
    assert(sum_is(4, 1, 8, 0)) by {
        lemma_chord(4, 1, 8, 0, element(4, 4), element(4, 2));
    }
    assert(sum_is(4, 1, 8, 1)) by {
        lemma_chord(4, 1, 8, 1, element(2, 2), element(3, 2));
    }
    assert(sum_is(4, 1, 8, 2)) by {
        lemma_chord(4, 1, 8, 2, element(1, 0), element(2, 4));
    }
}

/// The sums of `4·G + 2·H` with itself and with the points after it.
proof fn lemma_row_4_2(u: int, v: int)
    requires
        in_range(u, v),
        no_later(4, 2, u, v),
    ensures
        sum_is(4, 2, u, v),
{
    reveal(combination);
    assert(sum_is(4, 2, 4, 2)) by {
        lemma_tangent(4, 2, element(2, 2), element(0, 4), element(3, 1));
    }
    assert(sum_is(4, 2, 5, 0)) by {
        lemma_chord(4, 2, 5, 0, element(4, 3), element(3, 2));
    }
    assert(sum_is(4, 2, 5, 1)) by {
        lemma_cancels(4, 2, 5, 1);
    }
    assert(sum_is(4, 2, 5, 2)) by {
        lemma_chord(4, 2, 5, 2, element(0, 2), element(0, 0));
    }
    assert(sum_is(4, 2, 6, 0)) by {
        lemma_chord(4, 2, 6, 0, element(0, 4), element(2, 1));
    }
    assert(sum_is(4, 2, 6, 1)) by {
        lemma_chord(4, 2, 6, 1, element(4, 0), element(4, 3));
    }
    assert(sum_is(4, 2, 6, 2)) by {
        lemma_chord(4, 2, 6, 2, element(3, 3), element(3, 3));
    }
    assert(sum_is(4, 2, 7, 0)) by {
        lemma_chord(4, 2, 7, 0, element(1, 1), element(1, 4));
    }
    assert(sum_is(4, 2, 7, 1)) by {
        lemma_chord(4, 2, 7, 1, element(2, 2), element(1, 4));
    }
    assert(sum_is(4, 2, 7, 2)) by {
        lemma_chord(4, 2, 7, 2, element(4, 2), element(0, 4));
    }
    assert(sum_is(4, 2, 8, 0)) by {
        lemma_chord(4, 2, 8, 0, element(4, 1), element(4, 3));
    }
    assert(sum_is(4, 2, 8, 1)) by {
        lemma_chord(4, 2, 8, 1, element(1, 0), element(2, 1));
    }
    assert(sum_is(4, 2, 8, 2)) by {
        lemma_chord(4, 2, 8, 2, element(2, 3), element(3, 3));
    }
}

/// The sums of `5·G + 0·H` with itself and with the points after it.
proof fn lemma_row_5_0(u: int, v: int)
    requires
        in_range(u, v),
        no_later(5, 0, u, v),
    ensures
        sum_is(5, 0, u, v),
{
    reveal(combination);
    assert(sum_is(5, 0, 5, 0)) by {
        lemma_tangent(5, 0, element(3, 0), element(3, 0), element(4, 0));
    }
    assert(sum_is(5, 0, 5, 1)) by {
        lemma_chord(5, 0, 5, 1, element(1, 2), element(0, 4));
    }
    assert(sum_is(5, 0, 5, 2)) by {
        lemma_chord(5, 0, 5, 2, element(1, 3), element(0, 1));
    }
    assert(sum_is(5, 0, 6, 0)) by {
        lemma_chord(5, 0, 6, 0, element(4, 0), element(2, 0));
    }
    assert(sum_is(5, 0, 6, 1)) by {
        lemma_chord(5, 0, 6, 1, element(4, 4), element(2, 4));
    }
    assert(sum_is(5, 0, 6, 2)) by {
        lemma_chord(5, 0, 6, 2, element(4, 1), element(2, 1));
    }
    assert(sum_is(5, 0, 7, 0)) by {
        lemma_chord(5, 0, 7, 0, element(1, 0), element(2, 0));
    }
    assert(sum_is(5, 0, 7, 1)) by {
        lemma_chord(5, 0, 7, 1, element(0, 2), element(2, 1));
    }
    assert(sum_is(5, 0, 7, 2)) by {
        lemma_chord(5, 0, 7, 2, element(0, 3), element(2, 4));
    }
    assert(sum_is(5, 0, 8, 0)) by {
        lemma_chord(5, 0, 8, 0, element(3, 0), element(4, 0));
    }
    assert(sum_is(5, 0, 8, 1)) by {
        lemma_chord(5, 0, 8, 1, element(0, 1), element(0, 1));
    }
    assert(sum_is(5, 0, 8, 2)) by {
        lemma_chord(5, 0, 8, 2, element(0, 4), element(0, 4));
    }
}

/// The sums of `5·G + 1·H` with itself and with the points after it.
proof fn lemma_row_5_1(u: int, v: int)
    requires
        in_range(u, v),
        no_later(5, 1, u, v),
    ensures
        sum_is(5, 1, u, v),
{
    reveal(combination);
    assert(sum_is(5, 1, 5, 1)) by {
        lemma_tangent(5, 1, element(2, 2), element(0, 1), element(2, 4));
    }
    assert(sum_is(5, 1, 5, 2)) by {
        lemma_chord(5, 1, 5, 2, element(0, 2), element(3, 0));
    }
    assert(sum_is(5, 1, 6, 0)) by {
        lemma_chord(5, 1, 6, 0, element(0, 4), element(3, 1));
    }
    assert(sum_is(5, 1, 6, 1)) by {
        lemma_chord(5, 1, 6, 1, element(4, 0), element(4, 0));
    }
    assert(sum_is(5, 1, 6, 2)) by {
        lemma_chord(5, 1, 6, 2, element(3, 3), element(0, 2));
    }
    assert(sum_is(5, 1, 7, 0)) by {
        lemma_chord(5, 1, 7, 0, element(1, 1), element(0, 2));
    }
    assert(sum_is(5, 1, 7, 1)) by {
        lemma_chord(5, 1, 7, 1, element(2, 2), element(4, 0));
    }
    assert(sum_is(5, 1, 7, 2)) by {
        lemma_chord(5, 1, 7, 2, element(4, 2), element(3, 1));
    }
    assert(sum_is(5, 1, 8, 0)) by {
        lemma_chord(5, 1, 8, 0, element(4, 1), element(3, 0));
    }
    assert(sum_is(5, 1, 8, 1)) by {
        lemma_chord(5, 1, 8, 1, element(1, 0), element(2, 4));
    }
    assert(sum_is(5, 1, 8, 2)) by {
        lemma_chord(5, 1, 8, 2, element(2, 3), element(0, 4));
    }
}

/// The sums of `5·G + 2·H` with itself and with the points after it.
proof fn lemma_row_5_2(u: int, v: int)
    requires
        in_range(u, v),
        no_later(5, 2, u, v),
    ensures
        sum_is(5, 2, u, v),
{
    reveal(combination);
    assert(sum_is(5, 2, 5, 2)) by {
        lemma_tangent(5, 2, element(2, 3), element(0, 4), element(2, 1));
    }
    assert(sum_is(5, 2, 6, 0)) by {
        lemma_chord(5, 2, 6, 0, element(0, 1), element(3, 4));
    }
    assert(sum_is(5, 2, 6, 1)) by {
        lemma_chord(5, 2, 6, 1, element(3, 2), element(0, 3));
    }
    assert(sum_is(5, 2, 6, 2)) by {
        lemma_chord(5, 2, 6, 2, element(4, 0), element(4, 0));
    }
    assert(sum_is(5, 2, 7, 0)) by {
        lemma_chord(5, 2, 7, 0, element(1, 4), element(0, 3));
    }
    assert(sum_is(5, 2, 7, 1)) by {
        lemma_chord(5, 2, 7, 1, element(4, 3), element(3, 4));
    }
    assert(sum_is(5, 2, 7, 2)) by {
        lemma_chord(5, 2, 7, 2, element(2, 3), element(4, 0));
    }
    assert(sum_is(5, 2, 8, 0)) by {
        lemma_chord(5, 2, 8, 0, element(4, 4), element(3, 0));
    }
    assert(sum_is(5, 2, 8, 1)) by {
        lemma_chord(5, 2, 8, 1, element(2, 2), element(0, 1));
    }
    assert(sum_is(5, 2, 8, 2)) by {
        lemma_chord(5, 2, 8, 2, element(1, 0), element(2, 1));
    }
}

/// The sums of `6·G + 0·H` with itself and with the points after it.
proof fn lemma_row_6_0(u: int, v: int)
    requires
        in_range(u, v),
        no_later(6, 0, u, v),
    ensures
        sum_is(6, 0, u, v),
{
    reveal(combination);
    assert(sum_is(6, 0, 6, 0)) by {
        lemma_tangent(6, 0, element(2, 0), element(2, 0), element(1, 0));
    }
    assert(sum_is(6, 0, 6, 1)) by {
        lemma_chord(6, 0, 6, 1, element(1, 2), element(3, 0));
    }
    assert(sum_is(6, 0, 6, 2)) by {
        lemma_chord(6, 0, 6, 2, element(1, 3), element(3, 0));
    }
    assert(sum_is(6, 0, 7, 0)) by {
        lemma_chord(6, 0, 7, 0, element(3, 0), element(2, 0));
    }
    assert(sum_is(6, 0, 7, 1)) by {
        lemma_chord(6, 0, 7, 1, element(2, 3), element(3, 4));
    }
    assert(sum_is(6, 0, 7, 2)) by {
        lemma_chord(6, 0, 7, 2, element(2, 2), element(3, 1));
    }
    assert(sum_is(6, 0, 8, 0)) by {
        lemma_chord(6, 0, 8, 0, element(2, 0), element(0, 0));
    }
    assert(sum_is(6, 0, 8, 1)) by {
        lemma_chord(6, 0, 8, 1, element(4, 2), element(2, 1));
    }
    assert(sum_is(6, 0, 8, 2)) by {
        lemma_chord(6, 0, 8, 2, element(4, 3), element(2, 4));
    }
}

/// The sums of `6·G + 1·H` with itself and with the points after it.
proof fn lemma_row_6_1(u: int, v: int)
    requires
        in_range(u, v),
        no_later(6, 1, u, v),
    ensures
        sum_is(6, 1, u, v),
{
    reveal(combination);
    assert(sum_is(6, 1, 6, 1)) by {
        lemma_tangent(6, 1, element(1, 2), element(1, 4), element(4, 2));
    }
    assert(sum_is(6, 1, 6, 2)) by {
        lemma_chord(6, 1, 6, 2, element(0, 2), element(3, 0));
    }
    assert(sum_is(6, 1, 7, 0)) by {
        lemma_chord(6, 1, 7, 0, element(4, 1), element(0, 3));
    }
    assert(sum_is(6, 1, 7, 1)) by {
        lemma_chord(6, 1, 7, 1, element(2, 1), element(4, 0));
    }
    assert(sum_is(6, 1, 7, 2)) by {
        lemma_chord(6, 1, 7, 2, element(1, 4), element(2, 4));
    }
    assert(sum_is(6, 1, 8, 0)) by {
        lemma_chord(6, 1, 8, 0, element(1, 3), element(4, 3));
    }
    assert(sum_is(6, 1, 8, 1)) by {
        lemma_chord(6, 1, 8, 1, element(3, 0), element(3, 2));
    }
    assert(sum_is(6, 1, 8, 2)) by {
        lemma_chord(6, 1, 8, 2, element(2, 4), element(0, 2));
    }
}

/// The sums of `6·G + 2·H` with itself and with the points after it.
proof fn lemma_row_6_2(u: int, v: int)
    requires
        in_range(u, v),
        no_later(6, 2, u, v),
    ensures
        sum_is(6, 2, u, v),
{
    reveal(combination);
    assert(sum_is(6, 2, 6, 2)) by {
        lemma_tangent(6, 2, element(1, 3), element(1, 1), element(4, 3));
    }
    assert(sum_is(6, 2, 7, 0)) by {
        lemma_chord(6, 2, 7, 0, element(4, 4), element(0, 2));
    }
    assert(sum_is(6, 2, 7, 1)) by {
        lemma_chord(6, 2, 7, 1, element(1, 1), element(2, 1));
    }
    assert(sum_is(6, 2, 7, 2)) by {
        lemma_chord(6, 2, 7, 2, element(2, 4), element(4, 0));
    }
    assert(sum_is(6, 2, 8, 0)) by {
        lemma_chord(6, 2, 8, 0, element(1, 2), element(4, 2));
    }
    assert(sum_is(6, 2, 8, 1)) by {
        lemma_chord(6, 2, 8, 1, element(2, 1), element(0, 3));
    }
    assert(sum_is(6, 2, 8, 2)) by {
        lemma_chord(6, 2, 8, 2, element(3, 0), element(3, 3));
    }
}

/// The sums of `7·G + 0·H` with itself and with the points after it.
proof fn lemma_row_7_0(u: int, v: int)
    requires
        in_range(u, v),
        no_later(7, 0, u, v),
    ensures
        sum_is(7, 0, u, v),
{
    reveal(combination);
    assert(sum_is(7, 0, 7, 0)) by {
        lemma_tangent(7, 0, element(4, 0), element(1, 0), element(4, 0));
    }
    assert(sum_is(7, 0, 7, 1)) by {
        lemma_chord(7, 0, 7, 1, element(3, 3), element(1, 4));
    }
    assert(sum_is(7, 0, 7, 2)) by {
        lemma_chord(7, 0, 7, 2, element(3, 2), element(1, 1));
    }
    assert(sum_is(7, 0, 8, 0)) by {
        lemma_chord(7, 0, 8, 0, element(1, 0), element(1, 0));
    }
    assert(sum_is(7, 0, 8, 1)) by {
        lemma_chord(7, 0, 8, 1, element(1, 2), element(4, 3));
    }
    assert(sum_is(7, 0, 8, 2)) by {
        lemma_chord(7, 0, 8, 2, element(1, 3), element(4, 2));
    }
}

/// The sums of `7·G + 1·H` with itself and with the points after it.
proof fn lemma_row_7_1(u: int, v: int)
    requires
        in_range(u, v),
        no_later(7, 1, u, v),
    ensures
        sum_is(7, 1, u, v),
{
    reveal(combination);
    assert(sum_is(7, 1, 7, 1)) by {
        lemma_tangent(7, 1, element(3, 1), element(3, 1), element(0, 1));
    }
    assert(sum_is(7, 1, 7, 2)) by {
        lemma_chord(7, 1, 7, 2, element(0, 4), element(2, 0));
    }
    assert(sum_is(7, 1, 8, 0)) by {
        lemma_chord(7, 1, 8, 0, element(2, 1), element(4, 1));
    }
    assert(sum_is(7, 1, 8, 1)) by {
        lemma_chord(7, 1, 8, 1, element(0, 2), element(3, 1));
    }
    assert(sum_is(7, 1, 8, 2)) by {
        lemma_chord(7, 1, 8, 2, element(0, 1), element(4, 3));
    }
}

/// The sums of `7·G + 2·H` with itself and with the points after it.
proof fn lemma_row_7_2(u: int, v: int)
    requires
        in_range(u, v),
        no_later(7, 2, u, v),
    ensures
        sum_is(7, 2, u, v),
{
    reveal(combination);
    assert(sum_is(7, 2, 7, 2)) by {
        lemma_tangent(7, 2, element(3, 4), element(3, 4), element(0, 4));
    }
    assert(sum_is(7, 2, 8, 0)) by {
        lemma_chord(7, 2, 8, 0, element(2, 4), element(4, 4));
    }
    assert(sum_is(7, 2, 8, 1)) by {
        lemma_chord(7, 2, 8, 1, element(0, 4), element(4, 2));
    }
    assert(sum_is(7, 2, 8, 2)) by {
        lemma_chord(7, 2, 8, 2, element(0, 3), element(3, 4));
    }
}

/// The sums of `8·G + 0·H` with itself and with the points after it.
proof fn lemma_row_8_0(u: int, v: int)
    requires
        in_range(u, v),
        no_later(8, 0, u, v),
    ensures
        sum_is(8, 0, u, v),
{
    reveal(combination);
    assert(sum_is(8, 0, 8, 0)) by {
        lemma_tangent(8, 0, element(0, 0), element(2, 0), element(2, 0));
    }
    assert(sum_is(8, 0, 8, 1)) by {
        lemma_chord(8, 0, 8, 1, element(4, 4), element(2, 2));
    }
    assert(sum_is(8, 0, 8, 2)) by {
        lemma_chord(8, 0, 8, 2, element(4, 1), element(2, 3));
    }
}

/// The sums of `8·G + 1·H` with itself and with the points after it.
proof fn lemma_row_8_1(u: int, v: int)
    requires
        in_range(u, v),
        no_later(8, 1, u, v),
    ensures
        sum_is(8, 1, u, v),
{
    reveal(combination);
    assert(sum_is(8, 1, 8, 1)) by {
        lemma_tangent(8, 1, element(3, 2), element(4, 0), element(1, 4));
    }
    assert(sum_is(8, 1, 8, 2)) by {
        lemma_chord(8, 1, 8, 2, element(0, 2), element(0, 0));
    }
}

/// The sums of `8·G + 2·H` with itself and with the points after it.
proof fn lemma_row_8_2(u: int, v: int)
    requires
        in_range(u, v),
        no_later(8, 2, u, v),
    ensures
        sum_is(8, 2, u, v),
{
    reveal(combination);
    assert(sum_is(8, 2, 8, 2)) by {
        lemma_tangent(8, 2, element(3, 3), element(4, 0), element(1, 1));
    }
}

/// Any two of the 26 affine points, the earlier one first, add up as
/// their coordinates do.
pub proof fn lemma_table(u1: int, v1: int, u2: int, v2: int)
    requires
        in_range(u1, v1),
        in_range(u2, v2),
        !(u1 == 0 && v1 == 0),
        no_later(u1, v1, u2, v2),
    ensures
        sum_is(u1, v1, u2, v2),
{
    if u1 == 0 && v1 == 1 {
        lemma_row_0_1(u2, v2);
    } else if u1 == 0 && v1 == 2 {
        lemma_row_0_2(u2, v2);
    } else if u1 == 1 && v1 == 0 {
        lemma_row_1_0(u2, v2);
    } else if u1 == 1 && v1 == 1 {
        lemma_row_1_1(u2, v2);
    } else if u1 == 1 && v1 == 2 {
        lemma_row_1_2(u2, v2);
    } else if u1 == 2 && v1 == 0 {
        lemma_row_2_0(u2, v2);
    } else if u1 == 2 && v1 == 1 {
        lemma_row_2_1(u2, v2);
    } else if u1 == 2 && v1 == 2 {
        lemma_row_2_2(u2, v2);
    } else if u1 == 3 && v1 == 0 {
        lemma_row_3_0(u2, v2);
    } else if u1 == 3 && v1 == 1 {
        lemma_row_3_1(u2, v2);
    } else if u1 == 3 && v1 == 2 {
        lemma_row_3_2(u2, v2);
    } else if u1 == 4 && v1 == 0 {
        lemma_row_4_0(u2, v2);
    } else if u1 == 4 && v1 == 1 {
        lemma_row_4_1(u2, v2);
    } else if u1 == 4 && v1 == 2 {
        lemma_row_4_2(u2, v2);
    } else if u1 == 5 && v1 == 0 {
        lemma_row_5_0(u2, v2);
    } else if u1 == 5 && v1 == 1 {
        lemma_row_5_1(u2, v2);
    } else if u1 == 5 && v1 == 2 {
        lemma_row_5_2(u2, v2);
    } else if u1 == 6 && v1 == 0 {
        lemma_row_6_0(u2, v2);
    } else if u1 == 6 && v1 == 1 {
        lemma_row_6_1(u2, v2);
    } else if u1 == 6 && v1 == 2 {
        lemma_row_6_2(u2, v2);
    } else if u1 == 7 && v1 == 0 {
        lemma_row_7_0(u2, v2);
    } else if u1 == 7 && v1 == 1 {
        lemma_row_7_1(u2, v2);
    } else if u1 == 7 && v1 == 2 {
        lemma_row_7_2(u2, v2);
    } else if u1 == 8 && v1 == 0 {
        lemma_row_8_0(u2, v2);
    } else if u1 == 8 && v1 == 1 {
        lemma_row_8_1(u2, v2);
    } else {
        lemma_row_8_2(u2, v2);
    }
}

} // verus!
