//! The curve `y² = x³ + x + 1` over GF(5²), searched through.

use vstd::prelude::*;
use crate::field_spec::Gf25;
use crate::field::F5x2;
use crate::curve::Point;
use crate::instance::lemma_instance_multiples_defined;
use crate::search_spec::curve_points;
use crate::search_spec::frobenius_eigenspace;
use crate::search_spec::torsion_points;
use crate::search_spec::universe;
use crate::search::enumerate_curve_points;
use crate::search::field_elements;
use crate::search::find_full_r_torsion_points;
use crate::search::find_g2_points;

verus! {

/// What there is to report of the curve `y² = x³ + x + 1`, each list in the
/// order in which it is printed.
pub struct Report {
    /// The elements of the field.
    pub field_elements: Vec<F5x2>,
    /// The affine points of the curve.
    pub curve_points: Vec<Point>,
    /// The points `P` with `3P = O`.
    pub torsion_points: Vec<Point>,
    /// The points `P` with `(x⁵, y⁵) = 5P`.
    pub g2_points: Vec<Point>,
}

/// Searches the curve `y² = x³ + x + 1` over the whole field for its
/// points, its full 3-torsion and the points on which the Frobenius
/// endomorphism is multiplication by 5. On this curve no search ever
/// divides by zero.
pub fn report() -> (r: Report)
    ensures
        r.field_elements.deep_view() == universe(),
        r.curve_points.deep_view() == curve_points(universe(), Gf25::one(), Gf25::one()),
        r.torsion_points.deep_view() == torsion_points(3, universe(), Gf25::one(), Gf25::one()),
        r.g2_points.deep_view() == frobenius_eigenspace(universe(), Gf25::one(), Gf25::one()),
{
    // Create all elements of F(5^2)
    let field_elements = field_elements();
    // Define the curve: y^2 = x^3 + x + 1 (a = 1, b = 1).
    let a_curve = F5x2::new(1, 0);
    let b_curve = F5x2::new(1, 0);
    let curve_points = enumerate_curve_points(a_curve, b_curve, &field_elements);
    proof {
        lemma_instance_multiples_defined(3);
        lemma_instance_multiples_defined(5);
    }
    // Find full 3-torsion points (points P with 3P = O).
    let r: u8 = 3;
    let torsion_points = find_full_r_torsion_points(r, a_curve, b_curve, &field_elements);
    // Find group G₂: points P such that (x^5, y^5) = 5P.
    let g2_points = find_g2_points(a_curve, b_curve, &field_elements);
    Report { field_elements, curve_points, torsion_points, g2_points }
}

} // verus!
