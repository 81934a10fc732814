//! Facts about what the searches return.

use vstd::prelude::*;
use vstd::arithmetic::div_mod::lemma_fundamental_div_mod;
use vstd::arithmetic::div_mod::lemma_fundamental_div_mod_converse;
use vstd::arithmetic::div_mod::lemma_mod_bound;
use crate::field_spec::Gf25;
use crate::curve_spec::affine;
use crate::curve_spec::CurvePoint;
use crate::curve_spec::satisfies_equation;
use crate::curve_spec::scalar_mul;
use crate::curve_lemmas::lemma_scalar_mul_identity;
use crate::search_spec::curve_points;
use crate::search_spec::ends_with_identity;
use crate::search_spec::fibre;
use crate::search_spec::frobenius_eigenspace;
use crate::search_spec::frobenius_multiplies_by_five;
use crate::search_spec::killed_by;
use crate::search_spec::lies_over;
use crate::search_spec::points_over;
use crate::search_spec::points_within;
use crate::search_spec::torsion_points;
use crate::search_spec::universe;
use crate::search_spec::with_abscissa;

verus! {

/// The element in place `5a + b` of the field is `a + b·t`.
pub proof fn lemma_universe_at(a: int, b: int)
    requires
        0 <= a < 5,
        0 <= b < 5,
    ensures
        0 <= 5 * a + b < 25,
        universe()[5 * a + b] == (Gf25 { re: a, im: b }),
{
    lemma_fundamental_div_mod_converse(5 * a + b, 5, a, b);
}

/// The field has 25 elements: every canonical element, and none twice.
pub proof fn lemma_universe()
    ensures
        universe().len() == 25,
        forall|i: int| 0 <= i < 25 ==> (#[trigger] universe()[i]).canonical(),
        forall|i: int, j: int| 0 <= i < j < 25 ==> universe()[i] != universe()[j],
        forall|x: Gf25| x.canonical() ==> universe().contains(x),
{
    assert forall|i: int| 0 <= i < 25 implies (#[trigger] universe()[i]).canonical() by {
        lemma_fundamental_div_mod(i, 5);
        lemma_mod_bound(i, 5);
    }
    assert forall|i: int, j: int| 0 <= i < j < 25 implies universe()[i] != universe()[j] by {
        lemma_fundamental_div_mod(i, 5);
        lemma_fundamental_div_mod(j, 5);
    }
    assert forall|x: Gf25| x.canonical() implies universe().contains(x) by {
        lemma_universe_at(x.re, x.im);
    }
}

/// Every point found over `x` is `(x, y)` for a `y` of `ys` that solves the
/// curve equation.
pub proof fn lemma_points_over_sound(x: Gf25, ys: Seq<Gf25>, a: Gf25, b: Gf25, i: int) -> (y: Gf25)
    requires
        0 <= i < points_over(x, ys, a, b).len(),
    ensures
        ys.contains(y),
        satisfies_equation(x, y, a, b),
        points_over(x, ys, a, b)[i] == affine(x, y),
{
    let kept = ys.filter(lies_over(x, a, b));
    ys.lemma_filter_pred(lies_over(x, a, b), i);
    assert(kept.contains(kept[i]));
    ys.lemma_filter_contains_rev(lies_over(x, a, b), kept[i]);
    kept[i]
}

/// Every `y` of `ys` that solves the curve equation over `x` gives a point
/// found over `x`.
pub proof fn lemma_points_over_complete(x: Gf25, ys: Seq<Gf25>, a: Gf25, b: Gf25, j: int)
    requires
        0 <= j < ys.len(),
        satisfies_equation(x, ys[j], a, b),
    ensures
        points_over(x, ys, a, b).contains(affine(x, ys[j])),
{
    let kept = ys.filter(lies_over(x, a, b));
    ys.lemma_filter_contains(lies_over(x, a, b), j);
    let k = choose|k: int| 0 <= k < kept.len() && kept[k] == ys[j];
    assert(points_over(x, ys, a, b)[k] == affine(x, ys[j]));
}

/// The points over one more `x` come after those found so far.
pub proof fn lemma_points_within_push(xs: Seq<Gf25>, x: Gf25, ys: Seq<Gf25>, a: Gf25, b: Gf25)
    ensures
        points_within(xs.push(x), ys, a, b) == points_within(xs, ys, a, b) + points_over(
            x,
            ys,
            a,
            b,
        ),
{
    xs.lemma_push_map_commute(fibre(ys, a, b), x);
    xs.map_values(fibre(ys, a, b)).lemma_flatten_push(points_over(x, ys, a, b));
}

/// Every point found is `(x, y)` for an `x` of `xs` and a `y` of `ys` that
/// solve the curve equation.
pub proof fn lemma_points_within_sound(xs: Seq<Gf25>, ys: Seq<Gf25>, a: Gf25, b: Gf25, i: int) -> (xy:
    (Gf25, Gf25))
    requires
        0 <= i < points_within(xs, ys, a, b).len(),
    ensures
        xs.contains(xy.0),
        ys.contains(xy.1),
        satisfies_equation(xy.0, xy.1, a, b),
        points_within(xs, ys, a, b)[i] == affine(xy.0, xy.1),
    decreases xs.len(),
{
    if xs.len() == 0 {
        assert(xs.map_values(fibre(ys, a, b)) =~= Seq::<Seq<CurvePoint>>::empty());
        (Gf25::zero(), Gf25::zero())
    } else {
        let front = xs.drop_last();
        let x = xs.last();
        assert(xs == front.push(x));
        lemma_points_within_push(front, x, ys, a, b);
        let earlier = points_within(front, ys, a, b);
        if i < earlier.len() {
            let xy = lemma_points_within_sound(front, ys, a, b, i);
            let k = choose|k: int| 0 <= k < front.len() && front[k] == xy.0;
            assert(xs[k] == xy.0);
            xy
        } else {
            let y = lemma_points_over_sound(x, ys, a, b, i - earlier.len());
            assert(xs[xs.len() - 1] == x);
            (x, y)
        }
    }
}

/// Every `x` of `xs` and `y` of `ys` that solve the curve equation give a
/// point that is found.
pub proof fn lemma_points_within_complete(
    xs: Seq<Gf25>,
    ys: Seq<Gf25>,
    a: Gf25,
    b: Gf25,
    i: int,
    j: int,
)
    requires
        0 <= i < xs.len(),
        0 <= j < ys.len(),
        satisfies_equation(xs[i], ys[j], a, b),
    ensures
        points_within(xs, ys, a, b).contains(affine(xs[i], ys[j])),
    decreases xs.len(),
{
    let front = xs.drop_last();
    let x = xs.last();
    assert(xs == front.push(x));
    lemma_points_within_push(front, x, ys, a, b);
    let earlier = points_within(front, ys, a, b);
    let all = points_within(xs, ys, a, b);
    if i < front.len() {
        lemma_points_within_complete(front, ys, a, b, i, j);
        let k = choose|k: int| 0 <= k < earlier.len() && earlier[k] == affine(xs[i], ys[j]);
        assert(all[k] == affine(xs[i], ys[j]));
    } else {
        lemma_points_over_complete(x, ys, a, b, j);
        let over = points_over(x, ys, a, b);
        let k = choose|k: int| 0 <= k < over.len() && over[k] == affine(x, ys[j]);
        assert(all[earlier.len() + k] == affine(xs[i], ys[j]));
    }
}

/// The enumeration of the curve holds only affine points with coordinates
/// from `field` that solve the curve equation.
pub proof fn lemma_curve_points_sound(field: Seq<Gf25>, a: Gf25, b: Gf25, i: int) -> (xy: (
    Gf25,
    Gf25,
))
    requires
        0 <= i < curve_points(field, a, b).len(),
    ensures
        field.contains(xy.0),
        field.contains(xy.1),
        satisfies_equation(xy.0, xy.1, a, b),
        curve_points(field, a, b)[i] == affine(xy.0, xy.1),
        curve_points(field, a, b)[i].on_curve(a, b),
{
    lemma_points_within_sound(field, field, a, b, i)
}

/// The enumeration of the curve holds every affine point with coordinates
/// from `field` that solves the curve equation.
pub proof fn lemma_curve_points_complete(field: Seq<Gf25>, a: Gf25, b: Gf25, x: Gf25, y: Gf25)
    requires
        field.contains(x),
        field.contains(y),
        satisfies_equation(x, y, a, b),
    ensures
        curve_points(field, a, b).contains(affine(x, y)),
{
    let i = choose|i: int| 0 <= i < field.len() && field[i] == x;
    let j = choose|j: int| 0 <= j < field.len() && field[j] == y;
    lemma_points_within_complete(field, field, a, b, i, j);
}

/// The enumeration of the curve holds affine points of the curve only.
pub proof fn lemma_curve_points_on_curve(field: Seq<Gf25>, a: Gf25, b: Gf25)
    ensures
        forall|i: int|
            0 <= i < curve_points(field, a, b).len() ==> {
                &&& (#[trigger] curve_points(field, a, b)[i]) is Affine
                &&& curve_points(field, a, b)[i].on_curve(a, b)
            },
{
    assert forall|i: int| 0 <= i < curve_points(field, a, b).len() implies {
        &&& (#[trigger] curve_points(field, a, b)[i]) is Affine
        &&& curve_points(field, a, b)[i].on_curve(a, b)
    } by {
        lemma_curve_points_sound(field, a, b, i);
    }
}

/// What a filter of the curve's points, followed by the point at infinity,
/// holds: the point at infinity once, in the last place, and before it
/// exactly the affine points of the curve that pass the filter.
proof fn lemma_filtered_then_identity(
    field: Seq<Gf25>,
    a: Gf25,
    b: Gf25,
    keep: spec_fn(CurvePoint) -> bool,
)
    ensures
        ({
            let found = curve_points(field, a, b).filter(keep).push(CurvePoint::Identity);
            &&& ends_with_identity(found)
            &&& forall|i: int|
                0 <= i < found.len() - 1 ==> {
                    &&& keep(#[trigger] found[i])
                    &&& found[i].on_curve(a, b)
                    &&& curve_points(field, a, b).contains(found[i])
                }
            &&& forall|p: CurvePoint|
                curve_points(field, a, b).contains(p) && keep(p) ==> found.contains(p)
        }),
{
    let all = curve_points(field, a, b);
    let kept = all.filter(keep);
    let found = kept.push(CurvePoint::Identity);
    assert forall|i: int| 0 <= i < found.len() - 1 implies {
        &&& (#[trigger] found[i]) is Affine
        &&& keep(found[i])
        &&& found[i].on_curve(a, b)
        &&& all.contains(found[i])
    } by {
        all.lemma_filter_pred(keep, i);
        assert(kept.contains(kept[i]));
        all.lemma_filter_contains_rev(keep, kept[i]);
        let k = choose|k: int| 0 <= k < all.len() && all[k] == kept[i];
        lemma_curve_points_sound(field, a, b, k);
    }
    assert forall|p: CurvePoint| all.contains(p) && keep(p) implies found.contains(p) by {
        let k = choose|k: int| 0 <= k < all.len() && all[k] == p;
        all.lemma_filter_contains(keep, k);
        let m = choose|m: int| 0 <= m < kept.len() && kept[m] == p;
        assert(found[m] == p);
    }
}

/// The `n`-torsion points found end with the point at infinity, which
/// comes nowhere else among them. Those before it are exactly the affine
/// points of the curve over `field` that `n` kills, and `n` kills the point
/// at infinity too.
pub proof fn lemma_torsion_points(n: nat, field: Seq<Gf25>, a: Gf25, b: Gf25)
    ensures
        ends_with_identity(torsion_points(n, field, a, b)),
        forall|i: int|
            0 <= i < torsion_points(n, field, a, b).len() ==> {
                &&& scalar_mul(n, #[trigger] torsion_points(n, field, a, b)[i], a) is Identity
                &&& torsion_points(n, field, a, b)[i].on_curve(a, b)
            },
        forall|p: CurvePoint|
            curve_points(field, a, b).contains(p) && scalar_mul(n, p, a) is Identity
                ==> torsion_points(n, field, a, b).contains(p),
{
    lemma_filtered_then_identity(field, a, b, killed_by(n, a));
    lemma_scalar_mul_identity(n, a);
}

/// The points found on which the Frobenius endomorphism is multiplication
/// by 5 end with the point at infinity, which comes nowhere else among
/// them. Those before it are exactly the affine points `p` of the curve over
/// `field` that the endomorphism takes to `5·p`, as it does the point at
/// infinity.
pub proof fn lemma_frobenius_eigenspace(field: Seq<Gf25>, a: Gf25, b: Gf25)
    ensures
        ends_with_identity(frobenius_eigenspace(field, a, b)),
        forall|i: int|
            0 <= i < frobenius_eigenspace(field, a, b).len() ==> {
                &&& (#[trigger] frobenius_eigenspace(field, a, b)[i]).frobenius() == scalar_mul(
                    5,
                    frobenius_eigenspace(field, a, b)[i],
                    a,
                )
                &&& frobenius_eigenspace(field, a, b)[i].on_curve(a, b)
            },
        forall|p: CurvePoint|
            curve_points(field, a, b).contains(p) && p.frobenius() == scalar_mul(5, p, a)
                ==> frobenius_eigenspace(field, a, b).contains(p),
{
    lemma_filtered_then_identity(field, a, b, frobenius_multiplies_by_five(a));
    lemma_scalar_mul_identity(5, a);
}

} // verus!
