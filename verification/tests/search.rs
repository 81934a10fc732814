use gf25_curve::curve::point_frobenius;
use gf25_curve::curve::point_mul;
use gf25_curve::curve::Point;
use gf25_curve::field::F5x2;
use gf25_curve::search::enumerate_curve_points;
use gf25_curve::search::field_elements;
use gf25_curve::search::find_full_r_torsion_points;
use gf25_curve::search::find_g2_points;
use gf25_curve::search::scalar_multiples_defined;

fn e(a: u8, b: u8) -> F5x2 {
    F5x2::new(a, b)
}

fn pt(x: (u8, u8), y: (u8, u8)) -> Point {
    Point::new(Some(e(x.0, x.1)), Some(e(y.0, y.1)))
}

fn points(coordinates: &[((u8, u8), (u8, u8))]) -> Vec<Point> {
    coordinates.iter().map(|&(x, y)| pt(x, y)).collect()
}

fn one() -> F5x2 {
    e(1, 0)
}

fn base_field() -> Vec<F5x2> {
    (0..5u8).map(|a| e(a, 0)).collect()
}

fn is_perfect_square(n: usize) -> bool {
    (0..=n).any(|k| k * k == n)
}

#[test]
fn curve_points_of_the_instance() {
    let found = enumerate_curve_points(one(), one(), &field_elements());
    let expected = points(&[
        ((0, 0), (1, 0)),
        ((0, 0), (4, 0)),
        ((1, 0), (0, 1)),
        ((1, 0), (0, 4)),
        ((1, 2), (1, 1)),
        ((1, 2), (4, 4)),
        ((1, 3), (1, 4)),
        ((1, 3), (4, 1)),
        ((2, 0), (1, 0)),
        ((2, 0), (4, 0)),
        ((2, 2), (0, 1)),
        ((2, 2), (0, 4)),
        ((2, 3), (0, 1)),
        ((2, 3), (0, 4)),
        ((3, 0), (1, 0)),
        ((3, 0), (4, 0)),
        ((3, 1), (1, 3)),
        ((3, 1), (4, 2)),
        ((3, 2), (2, 0)),
        ((3, 2), (3, 0)),
        ((3, 3), (2, 0)),
        ((3, 3), (3, 0)),
        ((3, 4), (1, 2)),
        ((3, 4), (4, 3)),
        ((4, 0), (2, 0)),
        ((4, 0), (3, 0)),
    ]);
    assert_eq!(found.len(), 26);
    assert_eq!(found, expected);
}

#[test]
fn curve_points_are_the_solutions_of_the_equation() {
    let a = e(1, 0);
    let b = e(1, 0);
    let field = field_elements();
    let found = enumerate_curve_points(a, b, &field);
    let mut solutions = 0;
    for &x in &field {
        for &y in &field {
            let rhs = x.mul(x).mul(x).add(a.mul(x)).add(b);
            let on_curve = y.mul(y) == rhs;
            let p = Point::new(Some(x), Some(y));
            assert_eq!(found.contains(&p), on_curve);
            if on_curve {
                solutions += 1;
            }
        }
    }
    assert_eq!(found.len(), solutions);
    assert!(found.iter().all(|p| !p.is_at_infinity()));
}

#[test]
fn zero_one_is_a_curve_point() {
    let found = enumerate_curve_points(one(), one(), &field_elements());
    assert_eq!(e(1, 0).mul(e(1, 0)), e(1, 0));
    assert!(found.contains(&pt((0, 0), (1, 0))));
    assert_eq!(found[0], pt((0, 0), (1, 0)));
    assert!(!found.contains(&pt((0, 0), (2, 0))));
    assert!(!found.contains(&pt((1, 0), (1, 0))));
}

#[test]
fn curve_points_over_the_base_field() {
    let found = enumerate_curve_points(one(), one(), &base_field());
    let expected = points(&[
        ((0, 0), (1, 0)),
        ((0, 0), (4, 0)),
        ((2, 0), (1, 0)),
        ((2, 0), (4, 0)),
        ((3, 0), (1, 0)),
        ((3, 0), (4, 0)),
        ((4, 0), (2, 0)),
        ((4, 0), (3, 0)),
    ]);
    assert_eq!(found, expected);
}

#[test]
fn curve_points_follow_the_order_of_the_universe() {
    let reversed: Vec<F5x2> = base_field().into_iter().rev().collect();
    let found = enumerate_curve_points(one(), one(), &reversed);
    let expected = points(&[
        ((4, 0), (3, 0)),
        ((4, 0), (2, 0)),
        ((3, 0), (4, 0)),
        ((3, 0), (1, 0)),
        ((2, 0), (4, 0)),
        ((2, 0), (1, 0)),
        ((0, 0), (4, 0)),
        ((0, 0), (1, 0)),
    ]);
    assert_eq!(found, expected);
}

#[test]
fn a_universe_with_repeats_gives_points_with_repeats() {
    let field = vec![e(0, 0), e(1, 0), e(1, 0)];
    let found = enumerate_curve_points(one(), one(), &field);
    let expected = points(&[((0, 0), (1, 0)), ((0, 0), (1, 0))]);
    assert_eq!(found, expected);
}

#[test]
fn searches_over_an_empty_universe() {
    let field: Vec<F5x2> = Vec::new();
    assert!(enumerate_curve_points(one(), one(), &field).is_empty());
    assert!(scalar_multiples_defined(3, one(), one(), &field));
    assert_eq!(find_full_r_torsion_points(3, one(), one(), &field), vec![Point::at_infinity()]);
    assert_eq!(find_g2_points(one(), one(), &field), vec![Point::at_infinity()]);
}

#[test]
fn full_three_torsion_of_the_instance() {
    let field = field_elements();
    assert!(scalar_multiples_defined(3, one(), one(), &field));
    let found = find_full_r_torsion_points(3, one(), one(), &field);
    let mut expected = points(&[
        ((1, 0), (0, 1)),
        ((1, 0), (0, 4)),
        ((1, 2), (1, 1)),
        ((1, 2), (4, 4)),
        ((1, 3), (1, 4)),
        ((1, 3), (4, 1)),
        ((2, 0), (1, 0)),
        ((2, 0), (4, 0)),
    ]);
    expected.push(Point::at_infinity());
    assert_eq!(found, expected);
}

#[test]
fn three_torsion_has_a_size_that_fits_the_group() {
    let field = field_elements();
    let found = find_full_r_torsion_points(3, one(), one(), &field);
    let group_order = enumerate_curve_points(one(), one(), &field).len() + 1;
    assert_eq!(found.len(), 9);
    assert!(is_perfect_square(found.len()));
    assert_eq!(9 % found.len(), 0);
    assert_eq!(group_order % found.len(), 0);
    let at_infinity = found.iter().filter(|p| p.is_at_infinity()).count();
    assert_eq!(at_infinity, 1);
    assert!(found[found.len() - 1].is_at_infinity());
}

#[test]
fn torsion_points_are_the_points_that_the_order_kills() {
    let a = one();
    let field = field_elements();
    let all = enumerate_curve_points(a, one(), &field);
    for r in [0u8, 1, 2, 3, 5, 9, 27, 54, 255] {
        assert!(scalar_multiples_defined(r, a, one(), &field));
        let found = find_full_r_torsion_points(r, a, one(), &field);
        let mut expected: Vec<Point> = Vec::new();
        for &p in &all {
            if point_mul(r, p, a).is_at_infinity() {
                expected.push(p);
            }
        }
        expected.push(Point::at_infinity());
        assert_eq!(found, expected);
    }
}

#[test]
fn torsion_sizes_of_the_instance() {
    let field = field_elements();
    let size = |r: u8| find_full_r_torsion_points(r, one(), one(), &field).len();
    assert_eq!(size(0), 27);
    assert_eq!(size(1), 1);
    assert_eq!(size(2), 1);
    assert_eq!(size(3), 9);
    assert_eq!(size(5), 1);
    assert_eq!(size(9), 27);
    assert_eq!(size(27), 27);
}

#[test]
fn three_torsion_over_the_base_field() {
    let found = find_full_r_torsion_points(3, one(), one(), &base_field());
    let mut expected = points(&[((2, 0), (1, 0)), ((2, 0), (4, 0))]);
    expected.push(Point::at_infinity());
    assert_eq!(found, expected);
}

#[test]
fn frobenius_eigenspace_of_the_instance() {
    let field = field_elements();
    assert!(scalar_multiples_defined(5, one(), one(), &field));
    let found = find_g2_points(one(), one(), &field);
    let mut expected = points(&[((1, 0), (0, 1)), ((1, 0), (0, 4))]);
    expected.push(Point::at_infinity());
    assert_eq!(found, expected);
}

#[test]
fn frobenius_eigenspace_members_satisfy_the_condition() {
    let a = one();
    let field = field_elements();
    let found = find_g2_points(a, one(), &field);
    let at_infinity = found.iter().filter(|p| p.is_at_infinity()).count();
    assert_eq!(at_infinity, 1);
    assert!(found[found.len() - 1].is_at_infinity());
    for &p in &found {
        assert_eq!(point_frobenius(p), point_mul(5, p, a));
    }
    for p in enumerate_curve_points(a, one(), &field) {
        let in_eigenspace = point_frobenius(p) == point_mul(5, p, a);
        assert_eq!(found.contains(&p), in_eigenspace);
    }
    assert_eq!(point_mul(5, pt((1, 0), (0, 1)), a), pt((1, 0), (0, 4)));
    assert_eq!(point_mul(5, pt((0, 0), (1, 0)), a), pt((3, 0), (1, 0)));
}

#[test]
fn searches_are_repeatable() {
    let field = field_elements();
    assert_eq!(field_elements(), field);
    let curve = enumerate_curve_points(one(), one(), &field);
    assert_eq!(enumerate_curve_points(one(), one(), &field), curve);
    let torsion = find_full_r_torsion_points(3, one(), one(), &field);
    assert_eq!(find_full_r_torsion_points(3, one(), one(), &field), torsion);
    let eigenspace = find_g2_points(one(), one(), &field);
    assert_eq!(find_g2_points(one(), one(), &field), eigenspace);
}

#[test]
fn a_curve_with_vertical_tangents() {
    // y² = x³ + 4x has the points (0, 0), (1, 0) and (4, 0).
    let a = e(4, 0);
    let b = e(0, 0);
    let field = field_elements();
    let found = enumerate_curve_points(a, b, &field);
    assert_eq!(found.len(), 31);
    assert!(found.contains(&pt((0, 0), (0, 0))));
    assert!(found.contains(&pt((1, 0), (0, 0))));
    assert!(found.contains(&pt((4, 0), (0, 0))));
    assert_eq!(found.iter().filter(|p| **p == pt((1, 0), (0, 0))).count(), 1);
    assert!(scalar_multiples_defined(0, a, b, &field));
    assert!(!scalar_multiples_defined(1, a, b, &field));
    assert!(!scalar_multiples_defined(3, a, b, &field));
    assert!(!scalar_multiples_defined(5, a, b, &field));
    assert_eq!(find_full_r_torsion_points(0, a, b, &field).len(), 32);
}

#[test]
fn report_of_the_instance() {
    let found = gf25_curve::report::report();
    let field = field_elements();
    assert_eq!(found.field_elements, field);
    assert_eq!(found.curve_points, enumerate_curve_points(one(), one(), &field));
    assert_eq!(found.torsion_points, find_full_r_torsion_points(3, one(), one(), &field));
    assert_eq!(found.g2_points, find_g2_points(one(), one(), &field));
    assert_eq!(found.field_elements.len(), 25);
    assert_eq!(found.curve_points.len(), 26);
    assert_eq!(found.torsion_points.len(), 9);
    assert_eq!(found.g2_points.len(), 3);
}

#[test]
fn report_in_writing() {
    let found = gf25_curve::report::report();
    let torsion: Vec<String> = found.torsion_points.iter().map(|p| p.to_text()).collect();
    let expected = vec![
        "(1, 1t)",
        "(1, 4t)",
        "(1 + 2t, 1 + 1t)",
        "(1 + 2t, 4 + 4t)",
        "(1 + 3t, 1 + 4t)",
        "(1 + 3t, 4 + 1t)",
        "(2, 1)",
        "(2, 4)",
        "Point at infinity",
    ];
    assert_eq!(torsion, expected);
    let g2: Vec<String> = found.g2_points.iter().map(|p| p.to_text()).collect();
    assert_eq!(g2, vec!["(1, 1t)", "(1, 4t)", "Point at infinity"]);
    assert_eq!(found.curve_points[0].to_text(), "(0, 1)");
    assert_eq!(found.curve_points[25].to_text(), "(4, 3)");
}
