//! The curve `y² = x³ + x + 1` over GF(5²).
//!
//! With the point at infinity its 26 affine points make up the group
//! Z/9 × Z/3: each is `u·G + v·H` for `G = (0, 1)` of order 9, `H = (1, t)`
//! of order 3 and exactly one pair of `u` below 9 and `v` below 3, and points
//! are added by adding `u` modulo 9 and `v` modulo 3. So sums of points of
//! the curve stay on the curve, and no tangent is ever vertical.

use vstd::prelude::*;
use vstd::arithmetic::div_mod::lemma_mul_mod_noop_general;
use vstd::arithmetic::mul::lemma_mul_is_associative;
use vstd::arithmetic::mul::lemma_mul_is_distributive_add;
use vstd::arithmetic::mul::lemma_mul_is_distributive_add_other_way;
use crate::field_spec::element;
use crate::field_spec::Gf25;
use crate::curve_spec::add_defined;
use crate::curve_spec::affine;
use crate::curve_spec::curve_add;
use crate::curve_spec::curve_rhs;
use crate::curve_spec::CurvePoint;
use crate::curve_spec::has_vertical_tangent;
use crate::curve_spec::ladder;
use crate::curve_spec::ladder_defined;
use crate::curve_spec::ladder_step;
use crate::curve_spec::satisfies_equation;
use crate::curve_spec::scalar_mul;
use crate::curve_spec::scalar_mul_defined;
use crate::curve_lemmas::lemma_point_add_commutative;
use crate::curve_lemmas::lemma_point_add_defined;
use crate::instance_table::lemma_table;
use crate::instance_table::no_later;
use crate::instance_table::sum_is;
use crate::search_spec::curve_points;
use crate::search_spec::multiples_defined;
use crate::search_spec::universe;
use crate::search_lemmas::lemma_curve_points_sound;
use crate::search_lemmas::lemma_universe;

verus! {

/// The point is canonical and lies on `y² = x³ + x + 1`.
pub open spec fn on_instance(p: CurvePoint) -> bool {
    p.canonical() && p.on_curve(Gf25::one(), Gf25::one())
}

/// `u` and `v` are coordinates in Z/9 × Z/3.
pub open spec fn in_range(u: int, v: int) -> bool {
    0 <= u < 9 && 0 <= v < 3
}

/// The point `u·G + v·H`, for `G = (0, 1)` and `H = (1, t)`.
#[verifier::opaque]
pub open spec fn combination(u: int, v: int) -> CurvePoint {
    if u == 0 && v == 1 {
        affine(element(1, 0), element(0, 1))
    } else if u == 0 && v == 2 {
        affine(element(1, 0), element(0, 4))
    } else if u == 1 && v == 0 {
        affine(element(0, 0), element(1, 0))
    } else if u == 1 && v == 1 {
        affine(element(3, 3), element(3, 0))
    } else if u == 1 && v == 2 {
        affine(element(3, 2), element(3, 0))
    } else if u == 2 && v == 0 {
        affine(element(4, 0), element(2, 0))
    } else if u == 2 && v == 1 {
        affine(element(3, 4), element(1, 2))
    } else if u == 2 && v == 2 {
        affine(element(3, 1), element(1, 3))
    } else if u == 3 && v == 0 {
        affine(element(2, 0), element(1, 0))
    } else if u == 3 && v == 1 {
        affine(element(1, 3), element(4, 1))
    } else if u == 3 && v == 2 {
        affine(element(1, 2), element(4, 4))
    } else if u == 4 && v == 0 {
        affine(element(3, 0), element(4, 0))
    } else if u == 4 && v == 1 {
        affine(element(2, 3), element(0, 1))
    } else if u == 4 && v == 2 {
        affine(element(2, 2), element(0, 4))
    } else if u == 5 && v == 0 {
        affine(element(3, 0), element(1, 0))
    } else if u == 5 && v == 1 {
        affine(element(2, 2), element(0, 1))
    } else if u == 5 && v == 2 {
        affine(element(2, 3), element(0, 4))
    } else if u == 6 && v == 0 {
        affine(element(2, 0), element(4, 0))
    } else if u == 6 && v == 1 {
        affine(element(1, 2), element(1, 1))
    } else if u == 6 && v == 2 {
        affine(element(1, 3), element(1, 4))
    } else if u == 7 && v == 0 {
        affine(element(4, 0), element(3, 0))
    } else if u == 7 && v == 1 {
        affine(element(3, 1), element(4, 2))
    } else if u == 7 && v == 2 {
        affine(element(3, 4), element(4, 3))
    } else if u == 8 && v == 0 {
        affine(element(0, 0), element(4, 0))
    } else if u == 8 && v == 1 {
        affine(element(3, 2), element(2, 0))
    } else if u == 8 && v == 2 {
        affine(element(3, 3), element(2, 0))
    } else {
        CurvePoint::Identity
    }
}

/// `x` has the square `square` and gives the curve equation the right-hand
/// side `rhs`.
#[verifier::opaque]
pub open spec fn powers(x: Gf25, square: Gf25, rhs: Gf25) -> bool {
    x.mul(x) == square && curve_rhs(x, Gf25::one(), Gf25::one()) == rhs
}

/// The right-hand side of the curve equation by way of the square and the
/// cube.
proof fn lemma_powers(x: Gf25, square: Gf25, cube: Gf25, rhs: Gf25)
    requires
        x.mul(x) == square,
        square.mul(x) == cube,
        cube.add(Gf25::one().mul(x)).add(Gf25::one()) == rhs,
    ensures
        powers(x, square, rhs),
{
    reveal(powers);
}

/// The square of every element of the field, and the right-hand side that
/// it gives the curve equation.
pub proof fn lemma_powers_table()
    ensures
        powers(element(0, 0), element(0, 0), element(1, 0)),
        powers(element(0, 1), element(3, 0), element(1, 4)),
        powers(element(0, 2), element(2, 0), element(1, 1)),
        powers(element(0, 3), element(2, 0), element(1, 4)),
        powers(element(0, 4), element(3, 0), element(1, 1)),
        powers(element(1, 0), element(1, 0), element(3, 0)),
        powers(element(1, 1), element(4, 2), element(2, 2)),
        powers(element(1, 2), element(3, 4), element(4, 2)),
        powers(element(1, 3), element(3, 1), element(4, 3)),
        powers(element(1, 4), element(4, 3), element(2, 3)),
        powers(element(2, 0), element(4, 0), element(1, 0)),
        powers(element(2, 1), element(2, 4), element(4, 1)),
        powers(element(2, 2), element(1, 3), element(3, 0)),
        powers(element(2, 3), element(1, 2), element(3, 0)),
        powers(element(2, 4), element(2, 1), element(4, 4)),
        powers(element(3, 0), element(4, 0), element(1, 0)),
        powers(element(3, 1), element(2, 1), element(3, 1)),
        powers(element(3, 2), element(1, 2), element(4, 0)),
        powers(element(3, 3), element(1, 3), element(4, 0)),
        powers(element(3, 4), element(2, 4), element(3, 4)),
        powers(element(4, 0), element(1, 0), element(4, 0)),
        powers(element(4, 1), element(4, 3), element(0, 2)),
        powers(element(4, 2), element(3, 1), element(3, 2)),
        powers(element(4, 3), element(3, 4), element(3, 3)),
        powers(element(4, 4), element(4, 2), element(0, 3)),
{
    lemma_powers(element(0, 0), element(0, 0), element(0, 0), element(1, 0));
    lemma_powers(element(0, 1), element(3, 0), element(0, 3), element(1, 4));
    lemma_powers(element(0, 2), element(2, 0), element(0, 4), element(1, 1));
    lemma_powers(element(0, 3), element(2, 0), element(0, 1), element(1, 4));
    lemma_powers(element(0, 4), element(3, 0), element(0, 2), element(1, 1));
    lemma_powers(element(1, 0), element(1, 0), element(1, 0), element(3, 0));
    lemma_powers(element(1, 1), element(4, 2), element(0, 1), element(2, 2));
    lemma_powers(element(1, 2), element(3, 4), element(2, 0), element(4, 2));
    lemma_powers(element(1, 3), element(3, 1), element(2, 0), element(4, 3));
    lemma_powers(element(1, 4), element(4, 3), element(0, 4), element(2, 3));
    lemma_powers(element(2, 0), element(4, 0), element(3, 0), element(1, 0));
    lemma_powers(element(2, 1), element(2, 4), element(1, 0), element(4, 1));
    lemma_powers(element(2, 2), element(1, 3), element(0, 3), element(3, 0));
    lemma_powers(element(2, 3), element(1, 2), element(0, 2), element(3, 0));
    lemma_powers(element(2, 4), element(2, 1), element(1, 0), element(4, 4));
    lemma_powers(element(3, 0), element(4, 0), element(2, 0), element(1, 0));
    lemma_powers(element(3, 1), element(2, 1), element(4, 0), element(3, 1));
    lemma_powers(element(3, 2), element(1, 2), element(0, 3), element(4, 0));
    lemma_powers(element(3, 3), element(1, 3), element(0, 2), element(4, 0));
    lemma_powers(element(3, 4), element(2, 4), element(4, 0), element(3, 4));
    lemma_powers(element(4, 0), element(1, 0), element(4, 0), element(4, 0));
    lemma_powers(element(4, 1), element(4, 3), element(0, 1), element(0, 2));
    lemma_powers(element(4, 2), element(3, 1), element(3, 0), element(3, 2));
    lemma_powers(element(4, 3), element(3, 4), element(3, 0), element(3, 3));
    lemma_powers(element(4, 4), element(4, 2), element(0, 4), element(0, 3));
}

/// Every canonical solution of the curve equation is `u·G + v·H` for some
/// `u` below 9 and `v` below 3.
pub proof fn lemma_coordinates(x: Gf25, y: Gf25) -> (uv: (int, int))
    requires
        x.canonical(),
        y.canonical(),
        satisfies_equation(x, y, Gf25::one(), Gf25::one()),
    ensures
        in_range(uv.0, uv.1),
        combination(uv.0, uv.1) == affine(x, y),
{
    lemma_powers_table();
    reveal(powers);
    reveal(combination);
    assert(x == element(x.re, x.im));
    assert(y == element(y.re, y.im));
    if x == element(0, 0) && y == element(1, 0) {
        (1, 0)
    } else if x == element(0, 0) && y == element(4, 0) {
        (8, 0)
    } else if x == element(1, 0) && y == element(0, 1) {
        (0, 1)
    } else if x == element(1, 0) && y == element(0, 4) {
        (0, 2)
    } else if x == element(1, 2) && y == element(1, 1) {
        (6, 1)
    } else if x == element(1, 2) && y == element(4, 4) {
        (3, 2)
    } else if x == element(1, 3) && y == element(1, 4) {
        (6, 2)
    } else if x == element(1, 3) && y == element(4, 1) {
        (3, 1)
    } else if x == element(2, 0) && y == element(1, 0) {
        (3, 0)
    } else if x == element(2, 0) && y == element(4, 0) {
        (6, 0)
    } else if x == element(2, 2) && y == element(0, 1) {
        (5, 1)
    } else if x == element(2, 2) && y == element(0, 4) {
        (4, 2)
    } else if x == element(2, 3) && y == element(0, 1) {
        (4, 1)
    } else if x == element(2, 3) && y == element(0, 4) {
        (5, 2)
    } else if x == element(3, 0) && y == element(1, 0) {
        (5, 0)
    } else if x == element(3, 0) && y == element(4, 0) {
        (4, 0)
    } else if x == element(3, 1) && y == element(1, 3) {
        (2, 2)
    } else if x == element(3, 1) && y == element(4, 2) {
        (7, 1)
    } else if x == element(3, 2) && y == element(2, 0) {
        (8, 1)
    } else if x == element(3, 2) && y == element(3, 0) {
        (1, 2)
    } else if x == element(3, 3) && y == element(2, 0) {
        (8, 2)
    } else if x == element(3, 3) && y == element(3, 0) {
        (1, 1)
    } else if x == element(3, 4) && y == element(1, 2) {
        (2, 1)
    } else if x == element(3, 4) && y == element(4, 3) {
        (7, 2)
    } else if x == element(4, 0) && y == element(2, 0) {
        (2, 0)
    } else if x == element(4, 0) && y == element(3, 0) {
        (7, 0)
    } else {
        assert(false);
        (0, 0)
    }
}

/// Every `u·G + v·H` is a canonical point of the curve, none has a vertical
/// tangent, and only `0·G + 0·H` is the point at infinity.
pub proof fn lemma_combination(u: int, v: int)
    requires
        in_range(u, v),
    ensures
        on_instance(combination(u, v)),
        !has_vertical_tangent(combination(u, v)),
        combination(u, v) is Identity <==> u == 0 && v == 0,
{
    lemma_powers_table();
    reveal(powers);
    reveal(combination);
}

/// Different coordinates give different points.
pub proof fn lemma_combination_injective(u1: int, v1: int, u2: int, v2: int)
    requires
        in_range(u1, v1),
        in_range(u2, v2),
        combination(u1, v1) == combination(u2, v2),
    ensures
        u1 == u2,
        v1 == v2,
{
    reveal(combination);
}

/// The Frobenius endomorphism keeps `G` and takes `H` to `2·H`.
pub proof fn lemma_instance_frobenius(u: int, v: int)
    requires
        in_range(u, v),
    ensures
        combination(u, v).frobenius() == combination(u, (2 * v) % 3),
{
    reveal(combination);
}

/// The coordinates of a point of the curve.
pub proof fn lemma_coordinates_of(p: CurvePoint) -> (uv: (int, int))
    requires
        on_instance(p),
    ensures
        in_range(uv.0, uv.1),
        combination(uv.0, uv.1) == p,
{
    match p {
        CurvePoint::Identity => {
            lemma_combination(0, 0);
            (0, 0)
        },
        CurvePoint::Affine { x, y } => lemma_coordinates(x, y),
    }
}

/// Points are added by adding their coordinates, `u` modulo 9 and `v`
/// modulo 3.
pub proof fn lemma_sum(u1: int, v1: int, u2: int, v2: int)
    requires
        in_range(u1, v1),
        in_range(u2, v2),
    ensures
        curve_add(combination(u1, v1), combination(u2, v2), Gf25::one()) == combination(
            (u1 + u2) % 9,
            (v1 + v2) % 3,
        ),
{
    if u1 == 0 && v1 == 0 {
        lemma_combination(u1, v1);
    } else if u2 == 0 && v2 == 0 {
        lemma_combination(u2, v2);
    } else if no_later(u1, v1, u2, v2) {
        lemma_table(u1, v1, u2, v2);
        reveal(sum_is);
    } else {
        lemma_table(u2, v2, u1, v1);
        reveal(sum_is);
        lemma_combination(u1, v1);
        lemma_combination(u2, v2);
        lemma_point_add_commutative(combination(u1, v1), combination(u2, v2), Gf25::one());
    }
}

/// The sum of two points of the curve is a point of the curve, and finding
/// it takes no division by zero.
pub proof fn lemma_instance_closed(p: CurvePoint, q: CurvePoint)
    requires
        on_instance(p),
        on_instance(q),
    ensures
        on_instance(curve_add(p, q, Gf25::one())),
        add_defined(p, q),
{
    let (u1, v1) = lemma_coordinates_of(p);
    let (u2, v2) = lemma_coordinates_of(q);
    lemma_sum(u1, v1, u2, v2);
    lemma_combination((u1 + u2) % 9, (v1 + v2) % 3);
    lemma_combination(u1, v1);
    lemma_point_add_defined(p, q);
}

/// Addition of points of the curve is associative.
pub proof fn lemma_instance_associative(p: CurvePoint, q: CurvePoint, r: CurvePoint)
    requires
        on_instance(p),
        on_instance(q),
        on_instance(r),
    ensures
        curve_add(curve_add(p, q, Gf25::one()), r, Gf25::one()) == curve_add(
            p,
            curve_add(q, r, Gf25::one()),
            Gf25::one(),
        ),
{
    let (u1, v1) = lemma_coordinates_of(p);
    let (u2, v2) = lemma_coordinates_of(q);
    let (u3, v3) = lemma_coordinates_of(r);
    lemma_sum(u1, v1, u2, v2);
    lemma_sum(u2, v2, u3, v3);
    lemma_sum((u1 + u2) % 9, (v1 + v2) % 3, u3, v3);
    lemma_sum(u1, v1, (u2 + u3) % 9, (v2 + v3) % 3);
    assert(((u1 + u2) % 9 + u3) % 9 == (u1 + (u2 + u3) % 9) % 9);
    assert(((v1 + v2) % 3 + v3) % 3 == (v1 + (v2 + v3) % 3) % 3);
}

/// One round of double-and-add in one coordinate: with the bit of `k`
/// added in and the base doubled, `k / 2` more of the base come to the
/// same as `k` of it.
proof fn lemma_ladder_round(k: int, a: int, b: int, m: int)
    requires
        k > 0,
        m > 0,
    ensures
        ((if k % 2 == 1 {
            (a + b) % m
        } else {
            a
        }) + (k / 2) * ((b + b) % m)) % m == (a + k * b) % m,
{
    let half = k / 2;
    let doubled = (b + b) % m;
    assert((half * doubled) % m == (half * (b + b)) % m) by {
        lemma_mul_mod_noop_general(half, b + b, m);
    }
    assert(half * (b + b) + (k % 2) * b == k * b) by {
        lemma_mul_is_distributive_add(half, b, b);
        lemma_mul_is_distributive_add_other_way(b, half + half, k % 2);
        lemma_mul_is_distributive_add_other_way(b, half, half);
    }
    lemma_congruent_terms(half * doubled, half * (b + b), a, b, k % 2, m);
}

/// Congruent terms may stand for each other in a sum, reduced or not.
proof fn lemma_congruent_terms(x: int, y: int, a: int, b: int, bit: int, m: int)
    requires
        m > 0,
        x % m == y % m,
        bit == 0 || bit == 1,
    ensures
        ((if bit == 1 {
            (a + b) % m
        } else {
            a
        }) + x) % m == (a + y + bit * b) % m,
{
    if bit == 1 {
        vstd::arithmetic::div_mod::lemma_mod_twice(a + b, m);
        lemma_mod_sum((a + b) % m, a + b, x, y, m);
    } else {
        lemma_mod_sum(a, a, x, y, m);
    }
}

/// Congruent terms give congruent sums.
proof fn lemma_mod_sum(a1: int, a2: int, x1: int, x2: int, m: int)
    requires
        m > 0,
        a1 % m == a2 % m,
        x1 % m == x2 % m,
    ensures
        (a1 + x1) % m == (a2 + x2) % m,
{
    lemma_mod_adds(a1, x1, m);
    lemma_mod_adds(a2, x2, m);
}

/// A sum may be reduced term by term.
proof fn lemma_mod_adds(a: int, b: int, m: int)
    requires
        m > 0,
    ensures
        (a + b) % m == (a % m + b % m) % m,
{
    vstd::arithmetic::div_mod::lemma_add_mod_noop(a, b, m);
}

/// Double-and-add on the curve divides by zero nowhere, and it adds `k`
/// times the base to the accumulator.
pub proof fn lemma_instance_ladder(k: nat, ub: int, vb: int, ua: int, va: int)
    requires
        in_range(ub, vb),
        in_range(ua, va),
    ensures
        ladder_defined(k, combination(ub, vb), combination(ua, va), Gf25::one()),
        ladder(k, combination(ub, vb), combination(ua, va), Gf25::one()) == combination(
            (ua + k * ub) % 9,
            (va + k * vb) % 3,
        ),
    decreases k,
{
    reveal(ladder);
    reveal(ladder_defined);
    let base = combination(ub, vb);
    let acc = combination(ua, va);
    lemma_combination(ub, vb);
    lemma_combination(ua, va);
    if k > 0 {
        lemma_sum(ub, vb, ub, vb);
        lemma_sum(ua, va, ub, vb);
        lemma_instance_closed(base, base);
        lemma_instance_closed(acc, base);
        let ub2 = (ub + ub) % 9;
        let vb2 = (vb + vb) % 3;
        let ua2 = if k % 2 == 1 {
            (ua + ub) % 9
        } else {
            ua
        };
        let va2 = if k % 2 == 1 {
            (va + vb) % 3
        } else {
            va
        };
        assert(curve_add(base, base, Gf25::one()) == combination(ub2, vb2));
        assert(ladder_step(k, base, acc, Gf25::one()) == combination(ua2, va2));
        lemma_instance_ladder(k / 2, ub2, vb2, ua2, va2);
        lemma_ladder_round(k as int, ua, ub, 9);
        lemma_ladder_round(k as int, va, vb, 3);
    } else {
        assert(k * ub == 0 && k * vb == 0) by (nonlinear_arith)
            requires
                k == 0,
        ;
    }
}

/// Every multiple of a point of the curve is defined, and multiplying a
/// point multiplies its coordinates.
pub proof fn lemma_instance_scalar_mul(n: nat, u: int, v: int)
    requires
        in_range(u, v),
    ensures
        scalar_mul_defined(n, combination(u, v), Gf25::one()),
        scalar_mul(n, combination(u, v), Gf25::one()) == combination((n * u) % 9, (n * v) % 3),
{
    lemma_combination(0, 0);
    lemma_instance_ladder(n, u, v, 0, 0);
}

/// On the curve each multiple of a point is the one before plus the point.
pub proof fn lemma_instance_scalar_mul_step(n: nat, p: CurvePoint)
    requires
        on_instance(p),
        n >= 1,
    ensures
        scalar_mul(n, p, Gf25::one()) == curve_add(
            scalar_mul((n - 1) as nat, p, Gf25::one()),
            p,
            Gf25::one(),
        ),
{
    let (u, v) = lemma_coordinates_of(p);
    let before = (n - 1) as nat;
    lemma_instance_scalar_mul(n, u, v);
    lemma_instance_scalar_mul(before, u, v);
    lemma_sum((before * u) % 9, (before * v) % 3, u, v);
    assert(before * u + u == n * u && before * v + v == n * v) by (nonlinear_arith)
        requires
            before + 1 == n,
    ;
    lemma_mod_sum((before * u) % 9, before * u, u, u, 9);
    lemma_mod_sum((before * v) % 3, before * v, v, v, 3);
}

/// The points of the curve that 3 kills are those whose first coordinate
/// is a multiple of 3: there are nine of them.
pub proof fn lemma_instance_three_torsion(u: int, v: int)
    requires
        in_range(u, v),
    ensures
        scalar_mul(3, combination(u, v), Gf25::one()) is Identity <==> u % 3 == 0,
{
    lemma_instance_scalar_mul(3, u, v);
    lemma_combination((3 * u) % 9, (3 * v) % 3);
}

/// The points of the curve on which the Frobenius endomorphism is
/// multiplication by 5 are the multiples of `H`: there are three of them.
pub proof fn lemma_instance_eigenspace(u: int, v: int)
    requires
        in_range(u, v),
    ensures
        combination(u, v).frobenius() == scalar_mul(5, combination(u, v), Gf25::one()) <==> u == 0,
{
    lemma_instance_scalar_mul(5, u, v);
    lemma_instance_frobenius(u, v);
    if combination(u, (2 * v) % 3) == combination((5 * u) % 9, (5 * v) % 3) {
        lemma_combination_injective(u, (2 * v) % 3, (5 * u) % 9, (5 * v) % 3);
    }
}

/// The searches over the whole field can take every multiple of every
/// point of the curve.
pub proof fn lemma_instance_multiples_defined(n: nat)
    ensures
        multiples_defined(n, curve_points(universe(), Gf25::one(), Gf25::one()), Gf25::one()),
{
    let points = curve_points(universe(), Gf25::one(), Gf25::one());
    lemma_universe();
    assert forall|i: int| 0 <= i < points.len() implies scalar_mul_defined(
        n,
        #[trigger] points[i],
        Gf25::one(),
    ) by {
        let xy = lemma_curve_points_sound(universe(), Gf25::one(), Gf25::one(), i);
        let j = choose|j: int| 0 <= j < 25 && universe()[j] == xy.0;
        let k = choose|k: int| 0 <= k < 25 && universe()[k] == xy.1;
        let (u, v) = lemma_coordinates_of(points[i]);
        lemma_instance_scalar_mul(n, u, v);
    }
}

} // verus!
