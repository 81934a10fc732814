use gf25_curve::field::F5x2;
use gf25_curve::search::field_elements;

fn e(a: u8, b: u8) -> F5x2 {
    F5x2::new(a, b)
}

fn nonzero() -> Vec<F5x2> {
    let mut out = Vec::new();
    for x in field_elements() {
        if !x.is_zero() {
            out.push(x);
        }
    }
    out
}

#[test]
fn new_reduces_both_coefficients() {
    assert_eq!(e(7, 13), e(2, 3));
    assert_eq!(e(5, 10), e(0, 0));
    assert_eq!(e(255, 254), e(0, 4));
    assert_ne!(e(1, 2), e(2, 1));
}

#[test]
fn is_zero_holds_of_zero_alone() {
    let mut zeros = 0;
    for x in field_elements() {
        if x.is_zero() {
            zeros += 1;
            assert_eq!(x, e(0, 0));
        }
    }
    assert_eq!(zeros, 1);
    assert!(e(5, 5).is_zero());
}

#[test]
fn add_is_coefficientwise() {
    assert_eq!(e(2, 3).add(e(4, 4)), e(1, 2));
    assert_eq!(e(4, 0).add(e(1, 0)), e(0, 0));
    assert_eq!(e(0, 4).add(e(0, 4)), e(0, 3));
}

#[test]
fn sub_is_coefficientwise() {
    assert_eq!(e(1, 2).sub(e(3, 4)), e(3, 3));
    assert_eq!(e(0, 0).sub(e(1, 1)), e(4, 4));
    assert_eq!(e(3, 3).sub(e(3, 3)), e(0, 0));
}

#[test]
fn mul_uses_t_squared_equals_three() {
    assert_eq!(e(0, 1).mul(e(0, 1)), e(3, 0));
    assert_eq!(e(2, 3).mul(e(1, 4)), e(3, 1));
    assert_eq!(e(4, 4).mul(e(4, 4)), e(4, 2));
    assert_eq!(e(3, 0).mul(e(2, 0)), e(1, 0));
    assert_eq!(e(0, 0).mul(e(3, 4)), e(0, 0));
}

#[test]
fn add_zero_and_mul_one_change_nothing() {
    let zero = e(0, 0);
    let one = e(1, 0);
    for x in field_elements() {
        assert_eq!(x.add(zero), x);
        assert_eq!(zero.add(x), x);
        assert_eq!(x.mul(one), x);
        assert_eq!(one.mul(x), x);
    }
}

#[test]
fn inverse_values() {
    assert_eq!(e(1, 0).inverse(), e(1, 0));
    assert_eq!(e(2, 0).inverse(), e(3, 0));
    assert_eq!(e(0, 1).inverse(), e(0, 2));
    assert_eq!(e(2, 3).inverse(), e(1, 1));
    assert_eq!(e(4, 4).inverse(), e(3, 2));
}

#[test]
fn inverse_times_element_is_one() {
    let one = e(1, 0);
    let all = nonzero();
    assert_eq!(all.len(), 24);
    for x in all {
        assert_eq!(x.mul(x.inverse()), one);
        assert_eq!(x.inverse().mul(x), one);
        assert_eq!(x.inverse().inverse(), x);
    }
}

#[test]
fn div_values() {
    assert_eq!(e(1, 2).div(e(3, 4)), e(4, 2));
    assert_eq!(e(0, 0).div(e(3, 4)), e(0, 0));
    assert_eq!(e(3, 4).div(e(3, 4)), e(1, 0));
    assert_eq!(e(3, 4).div(e(1, 0)), e(3, 4));
}

#[test]
fn div_undoes_mul() {
    for x in field_elements() {
        for y in nonzero() {
            assert_eq!(x.div(y).mul(y), x);
            assert_eq!(x.mul(y).div(y), x);
            assert_eq!(x.div(y), x.mul(y.inverse()));
        }
    }
}

#[test]
fn mod_inverse_finds_the_inverse() {
    assert_eq!(F5x2::mod_inverse(1, 5), 1);
    assert_eq!(F5x2::mod_inverse(2, 5), 3);
    assert_eq!(F5x2::mod_inverse(3, 5), 2);
    assert_eq!(F5x2::mod_inverse(4, 5), 4);
    assert_eq!(F5x2::mod_inverse(3, 7), 5);
    assert_eq!(F5x2::mod_inverse(10, 13), 4);
    assert_eq!(F5x2::mod_inverse(1, 2), 1);
}

#[test]
fn mod_inverse_at_the_top_of_the_range() {
    assert_eq!(F5x2::mod_inverse(7, 255), 73);
    assert_eq!(F5x2::mod_inverse(254, 255), 254);
    assert_eq!(F5x2::mod_inverse(255, 254), 1);
}

#[test]
fn add_is_associative_and_commutative() {
    let all = field_elements();
    for &x in &all {
        for &y in &all {
            assert_eq!(x.add(y), y.add(x));
            for &z in &all {
                assert_eq!(x.add(y).add(z), x.add(y.add(z)));
            }
        }
    }
}

#[test]
fn mul_is_associative_and_commutative() {
    let all = field_elements();
    for &x in &all {
        for &y in &all {
            assert_eq!(x.mul(y), y.mul(x));
            for &z in &all {
                assert_eq!(x.mul(y).mul(z), x.mul(y.mul(z)));
            }
        }
    }
}

#[test]
fn mul_distributes_over_add() {
    let all = field_elements();
    for &x in &all {
        for &y in &all {
            for &z in &all {
                assert_eq!(x.mul(y.add(z)), x.mul(y).add(x.mul(z)));
            }
        }
    }
}

#[test]
fn frobenius_values() {
    assert_eq!(e(2, 3).frobenius(), e(2, 2));
    assert_eq!(e(0, 1).frobenius(), e(0, 4));
    assert_eq!(e(3, 0).frobenius(), e(3, 0));
    assert_eq!(e(4, 4).frobenius(), e(4, 1));
}

#[test]
fn frobenius_twice_is_the_identity() {
    for x in field_elements() {
        assert_eq!(x.frobenius().frobenius(), x);
    }
}

#[test]
fn frobenius_is_the_fifth_power() {
    for x in field_elements() {
        let fifth = x.mul(x).mul(x).mul(x).mul(x);
        assert_eq!(x.frobenius(), fifth);
    }
}

#[test]
fn frobenius_fixes_the_base_field() {
    for x in field_elements() {
        let fixed = x.frobenius() == x;
        let in_base_field = x == e(0, 0) || x.mul(x).mul(x).mul(x) == e(1, 0);
        assert_eq!(fixed, in_base_field);
    }
}

#[test]
fn field_universe_has_25_elements_in_order() {
    let all = field_elements();
    assert_eq!(all.len(), 25);
    for a in 0..5u8 {
        for b in 0..5u8 {
            assert_eq!(all[(5 * a + b) as usize], e(a, b));
        }
    }
    assert_eq!(all[0], e(0, 0));
    assert_eq!(all[1], e(0, 1));
    assert_eq!(all[5], e(1, 0));
    assert_eq!(all[24], e(4, 4));
}

#[test]
fn element_text_leaves_out_zero_coefficients() {
    assert_eq!(e(0, 0).to_text(), "0");
    assert_eq!(e(3, 0).to_text(), "3");
    assert_eq!(e(0, 2).to_text(), "2t");
    assert_eq!(e(1, 4).to_text(), "1 + 4t");
    assert_eq!(e(1, 1).to_text(), "1 + 1t");
}

#[test]
fn element_text_of_the_whole_field() {
    let expected = vec![
        "0", "1t", "2t", "3t", "4t", "1", "1 + 1t", "1 + 2t", "1 + 3t", "1 + 4t", "2", "2 + 1t",
        "2 + 2t", "2 + 3t", "2 + 4t", "3", "3 + 1t", "3 + 2t", "3 + 3t", "3 + 4t", "4", "4 + 1t",
        "4 + 2t", "4 + 3t", "4 + 4t",
    ];
    let all = field_elements();
    assert_eq!(all.len(), expected.len());
    for i in 0..all.len() {
        assert_eq!(all[i].to_text(), expected[i]);
    }
}

#[test]
fn mod_inverse_exists_for_the_residues_coprime_to_the_modulus() {
    for x in 0..=255u8 {
        assert_eq!(F5x2::mod_inverse_exists(x, 5), x % 5 != 0);
        assert_eq!(F5x2::mod_inverse_exists(x, 0), false);
        assert_eq!(F5x2::mod_inverse_exists(x, 1), false);
        assert_eq!(F5x2::mod_inverse_exists(x, 2), x % 2 == 1);
        assert_eq!(F5x2::mod_inverse_exists(x, 6), x % 2 != 0 && x % 3 != 0);
        assert_eq!(F5x2::mod_inverse_exists(x, 255), x % 3 != 0 && x % 5 != 0 && x % 17 != 0);
    }
    for p in 0..=255u8 {
        for x in 0..=255u8 {
            if F5x2::mod_inverse_exists(x, p) {
                let i = F5x2::mod_inverse(x, p);
                assert!(1 <= i && i < p);
                assert_eq!((x as u32 * i as u32) % p as u32, 1);
            }
        }
    }
}
