use gf25_curve::curve::point_add;
use gf25_curve::curve::point_add_defined;
use gf25_curve::curve::point_frobenius;
use gf25_curve::curve::point_mul;
use gf25_curve::curve::point_mul_defined;
use gf25_curve::curve::Point;
use gf25_curve::field::F5x2;
use gf25_curve::search::enumerate_curve_points;
use gf25_curve::search::field_elements;

fn e(a: u8, b: u8) -> F5x2 {
    F5x2::new(a, b)
}

fn pt(x: (u8, u8), y: (u8, u8)) -> Point {
    Point::new(Some(e(x.0, x.1)), Some(e(y.0, y.1)))
}

fn curve_a() -> F5x2 {
    e(1, 0)
}

fn curve_b() -> F5x2 {
    e(1, 0)
}

fn curve() -> Vec<Point> {
    enumerate_curve_points(curve_a(), curve_b(), &field_elements())
}

fn mirror(x: F5x2, y: F5x2) -> Point {
    Point::new(Some(x), Some(e(0, 0).sub(y)))
}

#[test]
fn point_at_infinity_has_no_coordinates() {
    assert!(Point::at_infinity().is_at_infinity());
    assert!(Point::new(None, None).is_at_infinity());
    assert_eq!(Point::new(None, None), Point::at_infinity());
    assert!(!pt((0, 0), (1, 0)).is_at_infinity());
    assert!(!pt((0, 0), (0, 0)).is_at_infinity());
    assert_ne!(pt((0, 0), (0, 0)), Point::at_infinity());
}

#[test]
fn point_equality_is_by_coordinates() {
    assert_eq!(pt((1, 2), (4, 4)), pt((6, 7), (9, 9)));
    assert_ne!(pt((1, 2), (4, 4)), pt((1, 2), (1, 1)));
    assert_ne!(pt((1, 2), (4, 4)), pt((1, 3), (4, 4)));
}

#[test]
fn adding_the_point_at_infinity_changes_nothing() {
    let a = curve_a();
    let infinity = Point::at_infinity();
    for p in curve() {
        assert_eq!(point_add(p, infinity, a), p);
        assert_eq!(point_add(infinity, p, a), p);
    }
    assert_eq!(point_add(infinity, infinity, a), infinity);
}

#[test]
fn a_point_and_its_mirror_image_cancel() {
    let a = curve_a();
    let field = field_elements();
    let mut seen = 0;
    for &x in &field {
        for &y in &field {
            if !y.is_zero() {
                let p = Point::new(Some(x), Some(y));
                assert!(point_add(p, mirror(x, y), a).is_at_infinity());
                seen += 1;
            }
        }
    }
    assert_eq!(seen, 600);
}

#[test]
fn doubling_follows_the_tangent() {
    let a = curve_a();
    let p = pt((0, 0), (1, 0));
    assert_eq!(point_add(p, p, a), pt((4, 0), (2, 0)));
    let q = pt((1, 0), (0, 1));
    assert_eq!(point_add(q, q, a), pt((1, 0), (0, 4)));
}

#[test]
fn adding_follows_the_chord() {
    let a = curve_a();
    let p = pt((0, 0), (1, 0));
    let q = pt((1, 0), (0, 1));
    assert_eq!(point_add(p, q, a), pt((3, 3), (3, 0)));
    assert_eq!(point_add(q, p, a), pt((3, 3), (3, 0)));
}

#[test]
fn addition_on_the_curve_is_commutative_and_associative() {
    let a = curve_a();
    let all = curve();
    for &p in &all {
        for &q in &all {
            assert!(point_add_defined(p, q));
            let pq = point_add(p, q, a);
            assert_eq!(pq, point_add(q, p, a));
            for &r in &all {
                let qr = point_add(q, r, a);
                assert_eq!(point_add(pq, r, a), point_add(p, qr, a));
            }
        }
    }
}

#[test]
fn sums_of_curve_points_stay_on_the_curve() {
    let a = curve_a();
    let all = curve();
    for &p in &all {
        for &q in &all {
            let sum = point_add(p, q, a);
            assert!(sum.is_at_infinity() || all.contains(&sum));
        }
    }
}

#[test]
fn only_doubling_on_the_line_y_equals_zero_is_undefined() {
    let field = field_elements();
    let infinity = Point::at_infinity();
    for &x in &field {
        for &y in &field {
            let p = Point::new(Some(x), Some(y));
            assert!(point_add_defined(p, infinity));
            assert!(point_add_defined(infinity, p));
            assert_eq!(point_add_defined(p, p), !y.is_zero());
            assert!(point_add_defined(p, mirror(x, y)) || y.is_zero());
            let q = Point::new(Some(x.add(e(1, 0))), Some(y));
            assert!(point_add_defined(p, q));
        }
    }
    assert!(point_add_defined(infinity, infinity));
}

#[test]
fn multiples_of_a_generator() {
    let a = curve_a();
    let p = pt((0, 0), (1, 0));
    let expected = vec![
        Point::at_infinity(),
        pt((0, 0), (1, 0)),
        pt((4, 0), (2, 0)),
        pt((2, 0), (1, 0)),
        pt((3, 0), (4, 0)),
        pt((3, 0), (1, 0)),
        pt((2, 0), (4, 0)),
        pt((4, 0), (3, 0)),
        pt((0, 0), (4, 0)),
        Point::at_infinity(),
    ];
    for n in 0..expected.len() {
        assert_eq!(point_mul(n as u8, p, a), expected[n]);
    }
}

#[test]
fn zero_times_a_point_is_the_point_at_infinity() {
    let a = curve_a();
    for p in curve() {
        assert!(point_mul(0, p, a).is_at_infinity());
    }
    assert!(point_mul(0, Point::at_infinity(), a).is_at_infinity());
    assert!(point_mul(0, pt((2, 2), (0, 0)), a).is_at_infinity());
}

#[test]
fn one_times_a_point_is_the_point() {
    let a = curve_a();
    for p in curve() {
        assert_eq!(point_mul(1, p, a), p);
    }
    assert!(point_mul(1, Point::at_infinity(), a).is_at_infinity());
}

#[test]
fn each_multiple_is_the_one_before_plus_the_point() {
    let a = curve_a();
    for p in curve() {
        for n in 1..=60u8 {
            let before = point_mul(n - 1, p, a);
            assert_eq!(point_mul(n, p, a), point_add(before, p, a));
        }
    }
}

#[test]
fn the_group_order_kills_every_point() {
    let a = curve_a();
    for p in curve() {
        assert!(point_mul(27, p, a).is_at_infinity());
        assert!(point_mul(54, p, a).is_at_infinity());
        assert_eq!(point_mul(28, p, a), p);
        assert_eq!(point_mul(255, p, a), point_mul(12, p, a));
    }
}

#[test]
fn multiples_of_the_point_at_infinity() {
    let a = curve_a();
    for n in 0..=255u8 {
        assert!(point_mul_defined(n, Point::at_infinity(), a));
        assert!(point_mul(n, Point::at_infinity(), a).is_at_infinity());
    }
}

#[test]
fn multiples_are_defined_on_a_curve_without_vertical_tangents() {
    let a = curve_a();
    for p in curve() {
        for n in 0..=255u8 {
            assert!(point_mul_defined(n, p, a));
        }
    }
}

#[test]
fn multiples_of_a_point_with_a_vertical_tangent() {
    // (0, 0) lies on y² = x³ + 4x, and its tangent is vertical.
    let a = e(4, 0);
    let p = pt((0, 0), (0, 0));
    assert!(point_mul_defined(0, p, a));
    assert!(point_mul(0, p, a).is_at_infinity());
    for n in 1..=255u8 {
        assert!(!point_mul_defined(n, p, a));
    }
}

#[test]
fn multiples_that_run_into_a_vertical_tangent() {
    // On y² = x³ + 4x the double of (2, 1) is (0, 0).
    let a = e(4, 0);
    let p = pt((2, 0), (1, 0));
    assert_eq!(point_add(p, p, a), pt((0, 0), (0, 0)));
    assert!(point_mul_defined(1, p, a));
    assert_eq!(point_mul(1, p, a), p);
    assert!(!point_mul_defined(2, p, a));
    assert!(!point_mul_defined(3, p, a));
    assert!(!point_mul_defined(4, p, a));
}

#[test]
fn frobenius_of_points() {
    assert!(point_frobenius(Point::at_infinity()).is_at_infinity());
    assert_eq!(point_frobenius(pt((1, 2), (4, 4))), pt((1, 3), (4, 1)));
    assert_eq!(point_frobenius(pt((0, 0), (1, 0))), pt((0, 0), (1, 0)));
    assert_eq!(point_frobenius(pt((1, 0), (0, 1))), pt((1, 0), (0, 4)));
}

#[test]
fn frobenius_keeps_the_curve_and_its_sums() {
    let a = curve_a();
    let all = curve();
    for &p in &all {
        assert!(all.contains(&point_frobenius(p)));
        assert_eq!(point_frobenius(point_frobenius(p)), p);
        for &q in &all {
            let left = point_frobenius(point_add(p, q, a));
            let right = point_add(point_frobenius(p), point_frobenius(q), a);
            assert_eq!(left, right);
        }
    }
}

#[test]
fn point_text() {
    assert_eq!(Point::at_infinity().to_text(), "Point at infinity");
    assert_eq!(pt((1, 0), (0, 1)).to_text(), "(1, 1t)");
    assert_eq!(pt((1, 2), (4, 4)).to_text(), "(1 + 2t, 4 + 4t)");
    assert_eq!(pt((0, 0), (1, 0)).to_text(), "(0, 1)");
    assert_eq!(pt((0, 3), (0, 0)).to_text(), "(3t, 0)");
}

fn combination(u: u8, v: u8) -> Point {
    let a = curve_a();
    let g = pt((0, 0), (1, 0));
    let h = pt((1, 0), (0, 1));
    point_add(point_mul(u, g, a), point_mul(v, h, a), a)
}

#[test]
fn generators_have_orders_nine_and_three() {
    let a = curve_a();
    let g = pt((0, 0), (1, 0));
    let h = pt((1, 0), (0, 1));
    for n in 1..9u8 {
        assert!(!point_mul(n, g, a).is_at_infinity());
    }
    assert!(point_mul(9, g, a).is_at_infinity());
    assert!(!point_mul(1, h, a).is_at_infinity());
    assert!(!point_mul(2, h, a).is_at_infinity());
    assert!(point_mul(3, h, a).is_at_infinity());
}

#[test]
fn every_point_is_one_combination_of_the_generators() {
    let mut all = curve();
    all.push(Point::at_infinity());
    let mut seen: Vec<Point> = Vec::new();
    for u in 0..9u8 {
        for v in 0..3u8 {
            let p = combination(u, v);
            assert!(all.contains(&p));
            assert!(!seen.contains(&p));
            seen.push(p);
        }
    }
    assert_eq!(seen.len(), 27);
    assert!(combination(0, 0).is_at_infinity());
    assert_eq!(combination(1, 0), pt((0, 0), (1, 0)));
    assert_eq!(combination(0, 1), pt((1, 0), (0, 1)));
    assert_eq!(combination(4, 2), pt((2, 2), (0, 4)));
}

#[test]
fn points_are_added_by_adding_coordinates() {
    let a = curve_a();
    for u1 in 0..9u8 {
        for v1 in 0..3u8 {
            for u2 in 0..9u8 {
                for v2 in 0..3u8 {
                    let sum = point_add(combination(u1, v1), combination(u2, v2), a);
                    assert_eq!(sum, combination((u1 + u2) % 9, (v1 + v2) % 3));
                }
            }
        }
    }
}

#[test]
fn multiples_multiply_coordinates() {
    let a = curve_a();
    for u in 0..9u16 {
        for v in 0..3u16 {
            let p = combination(u as u8, v as u8);
            for n in [0u16, 1, 2, 3, 4, 5, 9, 26, 27, 100, 255] {
                let expected = combination(((n * u) % 9) as u8, ((n * v) % 3) as u8);
                assert_eq!(point_mul(n as u8, p, a), expected);
            }
        }
    }
}

#[test]
fn three_kills_the_points_with_a_first_coordinate_divisible_by_three() {
    let a = curve_a();
    let mut killed = 0;
    for u in 0..9u8 {
        for v in 0..3u8 {
            let is_killed = point_mul(3, combination(u, v), a).is_at_infinity();
            assert_eq!(is_killed, u % 3 == 0);
            if is_killed {
                killed += 1;
            }
        }
    }
    assert_eq!(killed, 9);
}

#[test]
fn frobenius_keeps_one_generator_and_doubles_the_other() {
    let a = curve_a();
    for u in 0..9u8 {
        for v in 0..3u8 {
            let p = combination(u, v);
            assert_eq!(point_frobenius(p), combination(u, (2 * v) % 3));
            let in_eigenspace = point_frobenius(p) == point_mul(5, p, a);
            assert_eq!(in_eigenspace, u == 0);
        }
    }
}

#[test]
fn no_point_of_the_curve_has_a_vertical_tangent() {
    for p in curve() {
        assert!(point_add_defined(p, p));
    }
    let field = field_elements();
    for &x in &field {
        let rhs = x.mul(x).mul(x).add(curve_a().mul(x)).add(curve_b());
        assert!(!rhs.is_zero());
    }
}
