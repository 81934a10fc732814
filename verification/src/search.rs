//! Exhaustive searches over the curve.

use vstd::prelude::*;
use crate::unreduced::lemma_reduce_twice;
use crate::field::F5x2;
use crate::curve_spec::curve_rhs;
use crate::curve_spec::CurvePoint;
use crate::curve_spec::scalar_mul;
use crate::curve_spec::scalar_mul_defined;
use crate::curve::Point;
use crate::curve::point_frobenius;
use crate::curve::point_mul;
use crate::curve::point_mul_defined;
use crate::search_spec::curve_points;
use crate::search_spec::ends_with_identity;
use crate::search_spec::frobenius_eigenspace;
use crate::search_spec::frobenius_multiplies_by_five;
use crate::search_spec::killed_by;
use crate::search_spec::lies_over;
use crate::search_spec::multiples_defined;
use crate::search_spec::points_over;
use crate::search_spec::points_within;
use crate::search_spec::torsion_points;
use crate::search_spec::universe;
use crate::search_spec::with_abscissa;
use crate::search_lemmas::lemma_curve_points_on_curve;
use crate::search_lemmas::lemma_frobenius_eigenspace;
use crate::search_lemmas::lemma_points_within_push;
use crate::search_lemmas::lemma_torsion_points;
use crate::search_lemmas::lemma_universe_at;

verus! {

/// The elements of the field, in the order of `universe`.
pub fn field_elements() -> (field: Vec<F5x2>)
    ensures
        field.deep_view() == universe(),
        field.len() == 25,
{
    let mut field: Vec<F5x2> = Vec::new();
    let mut a: u8 = 0;
    while a < 5
        invariant
            a <= 5,
            field.len() == 5 * a,
            forall|i: int| 0 <= i < field.len() ==> (#[trigger] field[i])@ == universe()[i],
        decreases 5 - a,
    {
        let mut b: u8 = 0;
        while b < 5
            invariant
                a < 5,
                b <= 5,
                field.len() == 5 * a + b,
                forall|i: int| 0 <= i < field.len() ==> (#[trigger] field[i])@ == universe()[i],
            decreases 5 - b,
        {
            let element = F5x2::new(a, b);
            proof {
                lemma_universe_at(a as int, b as int);
                lemma_reduce_twice(a as int);
                lemma_reduce_twice(b as int);
            }
            field.push(element);
            b += 1;
        }
        a += 1;
    }
    field
}

/// The affine points of the curve `y² = x³ + a·x + b` with coordinates
/// among `field_elements`, found by trying every pair.
pub fn enumerate_curve_points(a: F5x2, b: F5x2, field_elements: &Vec<F5x2>) -> (points: Vec<Point>)
    ensures
        points.deep_view() == curve_points(field_elements.deep_view(), a@, b@),
        forall|k: int| 0 <= k < points.len() ==> (#[trigger] points[k]).wf(),
        forall|k: int|
            0 <= k < points.len() ==> (#[trigger] points[k])@ is Affine && points[k]@.on_curve(
                a@,
                b@,
            ),
{
    let ghost field = field_elements.deep_view();
    let mut points: Vec<Point> = Vec::new();
    let mut i: usize = 0;
    while i < field_elements.len()
        invariant
            i <= field_elements.len(),
            field == field_elements.deep_view(),
            points.deep_view() == points_within(field.take(i as int), field, a@, b@),
            forall|k: int| 0 <= k < points.len() ==> (#[trigger] points[k]).wf(),
        decreases field_elements.len() - i,
    {
        let x = field_elements[i];
        let x_cubed = x.mul(x).mul(x);
        let rhs = x_cubed.add(a.mul(x)).add(b);
        let ghost before = points.deep_view();
        let mut j: usize = 0;
        while j < field_elements.len()
            invariant
                j <= field_elements.len(),
                i < field_elements.len(),
                field == field_elements.deep_view(),
                x == field_elements[i as int],
                rhs@ == curve_rhs(x@, a@, b@),
                points.deep_view() == before + points_over(x@, field.take(j as int), a@, b@),
                forall|k: int| 0 <= k < points.len() ==> (#[trigger] points[k]).wf(),
            decreases field_elements.len() - j,
        {
            let y = field_elements[j];
            let y_squared = y.mul(y);
            let ghost old_points = points.deep_view();
            proof {
                F5x2::lemma_view_injective(y_squared, rhs);
                let ys = field.take(j as int);
                assert(field.take(j + 1) == ys.push(y@));
                ys.lemma_filter_push(y@, lies_over(x@, a@, b@));
                ys.filter(lies_over(x@, a@, b@)).lemma_push_map_commute(with_abscissa(x@), y@);
            }
            if y_squared == rhs {
                let point = Point::new(Some(x), Some(y));
                proof {
                    use_type_invariant(&point);
                }
                points.push(point);
                assert(points.deep_view() == old_points.push(point@));
            }
            j += 1;
        }
        proof {
            let xs = field.take(i as int);
            assert(field.take(j as int) == field);
            assert(field.take(i + 1) == xs.push(x@));
            lemma_points_within_push(xs, x@, field, a@, b@);
        }
        i += 1;
    }
    assert(field.take(i as int) == field);
    proof {
        lemma_curve_points_on_curve(field, a@, b@);
        assert forall|k: int| 0 <= k < points.len() implies (#[trigger] points[k])@ is Affine
            && points[k]@.on_curve(a@, b@) by {
            assert(points.deep_view()[k] == points[k]@);
        }
    }
    points
}

/// Whether `point_mul` can multiply every point of the curve
/// `y² = x³ + a·x + b` over `field_elements` by `n`, as
/// `find_full_r_torsion_points` does, and `find_g2_points` with `n = 5`.
pub fn scalar_multiples_defined(n: u8, a: F5x2, b: F5x2, field_elements: &Vec<F5x2>) -> (d: bool)
    ensures
        d == multiples_defined(n as nat, curve_points(field_elements.deep_view(), a@, b@), a@),
{
    let points = enumerate_curve_points(a, b, field_elements);
    let ghost all = points.deep_view();
    let mut i: usize = 0;
    while i < points.len()
        invariant
            i <= points.len(),
            all == points.deep_view(),
            all == curve_points(field_elements.deep_view(), a@, b@),
            forall|k: int| 0 <= k < i ==> scalar_mul_defined(n as nat, #[trigger] all[k], a@),
        decreases points.len() - i,
    {
        assert(all[i as int] == points[i as int]@);
        if !point_mul_defined(n, points[i], a) {
            return false;
        }
        i += 1;
    }
    true
}

/// Finds all full r-torsion points (P such that rP = O) by iterating over
/// the field.
pub fn find_full_r_torsion_points(r: u8, a: F5x2, b: F5x2, field_elements: &Vec<F5x2>) -> (found:
    Vec<Point>)
    requires
        multiples_defined(r as nat, curve_points(field_elements.deep_view(), a@, b@), a@),
    ensures
        found.deep_view() == torsion_points(r as nat, field_elements.deep_view(), a@, b@),
        forall|k: int| 0 <= k < found.len() ==> (#[trigger] found[k]).wf(),
        ends_with_identity(found.deep_view()),
        forall|k: int|
            0 <= k < found.len() ==> scalar_mul(r as nat, (#[trigger] found[k])@, a@) is Identity,
{
    let points = enumerate_curve_points(a, b, field_elements);
    let ghost all = points.deep_view();
    let mut torsion_points: Vec<Point> = Vec::new();
    let mut i: usize = 0;
    while i < points.len()
        invariant
            i <= points.len(),
            all == points.deep_view(),
            multiples_defined(r as nat, all, a@),
            torsion_points.deep_view() == all.take(i as int).filter(killed_by(r as nat, a@)),
            forall|k: int| 0 <= k < points.len() ==> (#[trigger] points[k]).wf(),
            forall|k: int| 0 <= k < torsion_points.len() ==> (#[trigger] torsion_points[k]).wf(),
        decreases points.len() - i,
    {
        let point = points[i];
        let ghost before = torsion_points.deep_view();
        proof {
            assert(all[i as int] == point@);
            assert(all.take(i + 1) == all.take(i as int).push(point@));
            all.take(i as int).lemma_filter_push(point@, killed_by(r as nat, a@));
        }
        if point_mul(r, point, a).is_at_infinity() {
            torsion_points.push(point);
            assert(torsion_points.deep_view() == before.push(point@));
        }
        i += 1;
    }
    assert(all.take(i as int) == all);
    let ghost before = torsion_points.deep_view();
    let infinity = Point::at_infinity();
    proof {
        use_type_invariant(&infinity);
    }
    torsion_points.push(infinity);
    assert(torsion_points.deep_view() == before.push(infinity@));
    proof {
        lemma_torsion_points(r as nat, field_elements.deep_view(), a@, b@);
        assert forall|k: int| 0 <= k < torsion_points.len() implies scalar_mul(
            r as nat,
            (#[trigger] torsion_points[k])@,
            a@,
        ) is Identity by {
            assert(torsion_points.deep_view()[k] == torsion_points[k]@);
        }
    }
    torsion_points
}

/// Finds all points in G₂:
/// those points P for which (x^5, y^5) = 5P.
pub fn find_g2_points(a: F5x2, b: F5x2, field_elements: &Vec<F5x2>) -> (g2_points: Vec<Point>)
    requires
        multiples_defined(5, curve_points(field_elements.deep_view(), a@, b@), a@),
    ensures
        g2_points.deep_view() == frobenius_eigenspace(field_elements.deep_view(), a@, b@),
        forall|k: int| 0 <= k < g2_points.len() ==> (#[trigger] g2_points[k]).wf(),
        ends_with_identity(g2_points.deep_view()),
        forall|k: int|
            0 <= k < g2_points.len() ==> (#[trigger] g2_points[k])@.frobenius() == scalar_mul(
                5,
                g2_points[k]@,
                a@,
            ),
{
    let points = enumerate_curve_points(a, b, field_elements);
    let ghost all = points.deep_view();
    let mut g2_points: Vec<Point> = Vec::new();
    let mut i: usize = 0;
    while i < points.len()
        invariant
            i <= points.len(),
            all == points.deep_view(),
            multiples_defined(5, all, a@),
            g2_points.deep_view() == all.take(i as int).filter(frobenius_multiplies_by_five(a@)),
            forall|k: int| 0 <= k < points.len() ==> (#[trigger] points[k]).wf(),
            forall|k: int| 0 <= k < g2_points.len() ==> (#[trigger] g2_points[k]).wf(),
        decreases points.len() - i,
    {
        let p = points[i];
        let ghost before = g2_points.deep_view();
        proof {
            assert(all[i as int] == p@);
            assert(all.take(i + 1) == all.take(i as int).push(p@));
            all.take(i as int).lemma_filter_push(p@, frobenius_multiplies_by_five(a@));
        }
        let frob = point_frobenius(p);
        let five_p = point_mul(5, p, a);
        proof {
            use_type_invariant(&frob);
            use_type_invariant(&five_p);
            Point::lemma_view_injective(frob, five_p);
        }
        if frob == five_p {
            g2_points.push(p);
            assert(g2_points.deep_view() == before.push(p@));
        }
        i += 1;
    }
    assert(all.take(i as int) == all);
    // The point at infinity trivially satisfies the condition.
    let ghost before = g2_points.deep_view();
    let infinity = Point::at_infinity();
    proof {
        use_type_invariant(&infinity);
    }
    g2_points.push(infinity);
    assert(g2_points.deep_view() == before.push(infinity@));
    proof {
        lemma_frobenius_eigenspace(field_elements.deep_view(), a@, b@);
        assert forall|k: int| 0 <= k < g2_points.len() implies (#[trigger] g2_points[k])@.frobenius()
            == scalar_mul(5, g2_points[k]@, a@) by {
            assert(g2_points.deep_view()[k] == g2_points[k]@);
        }
    }
    g2_points
}

/// The field comes out the same whenever it is listed: a sequence of
/// elements is determined by the field elements it stands for.
pub proof fn lemma_field_deterministic(first: Vec<F5x2>, second: Vec<F5x2>)
    requires
        first.deep_view() == second.deep_view(),
    ensures
        first@ == second@,
{
    assert(first.len() == first.deep_view().len());
    assert(second.len() == second.deep_view().len());
    assert forall|i: int| 0 <= i < first.len() implies first[i] == second[i] by {
        assert(first.deep_view()[i] == first[i]@);
        assert(second.deep_view()[i] == second[i]@);
        F5x2::lemma_view_injective(first[i], second[i]);
    }
}

/// A search returns the same sequence whenever it is run on the same
/// inputs: the points it stands for are a function of the inputs, and two
/// sequences of well-formed points that stand for the same points are
/// equal.
pub proof fn lemma_search_deterministic(first: Vec<Point>, second: Vec<Point>)
    requires
        forall|i: int| 0 <= i < first.len() ==> (#[trigger] first[i]).wf(),
        forall|i: int| 0 <= i < second.len() ==> (#[trigger] second[i]).wf(),
        first.deep_view() == second.deep_view(),
    ensures
        first@ == second@,
{
    assert(first.len() == first.deep_view().len());
    assert(second.len() == second.deep_view().len());
    assert forall|i: int| 0 <= i < first.len() implies first[i] == second[i] by {
        assert(first.deep_view()[i] == first[i]@);
        assert(second.deep_view()[i] == second[i]@);
        Point::lemma_view_injective(first[i], second[i]);
    }
}

} // verus!
