//! Facts about the arithmetic of GF(5²): it is a field, and the Frobenius
//! map is an automorphism of order 2 that fixes the base field.

use vstd::prelude::*;
use vstd::arithmetic::mul::lemma_mul_is_commutative;
use crate::field_spec::element;
use crate::field_spec::Gf25;
use crate::field_spec::is_mod_inverse;
use crate::unreduced::lemma_add_of_congruent;
use crate::unreduced::lemma_congruent_differences;
use crate::unreduced::lemma_division;
use crate::unreduced::lemma_equal_residues;
use crate::unreduced::lemma_mul_mod5;
use crate::unreduced::lemma_mul_of_congruent;
use crate::unreduced::lemma_multiple_of_five;
use crate::unreduced::lemma_neg_of_congruent;
use crate::unreduced::lemma_negative_residue;
use crate::unreduced::lemma_raw_mul_associative;
use crate::unreduced::lemma_raw_mul_distributive;
use crate::unreduced::lemma_raw_mul_frobenius;
use crate::unreduced::lemma_raw_mul_neg;
use crate::unreduced::lemma_raw_norm_quotient;
use crate::unreduced::lemma_reduce_twice;
use crate::unreduced::lemma_residue_is;
use crate::unreduced::lemma_scale_mod5;
use crate::unreduced::lemma_shifted_differences;
use crate::unreduced::raw_add;
use crate::unreduced::raw_mul;
use crate::unreduced::raw_neg;
use crate::unreduced::raw_sub;

verus! {

/// Zero is the neutral element of addition.
pub proof fn lemma_add_zero(x: Gf25)
    requires
        x.canonical(),
    ensures
        x.add(Gf25::zero()) == x,
        Gf25::zero().add(x) == x,
{
    lemma_reduce_twice(x.re);
    lemma_reduce_twice(x.im);
}

/// One is the neutral element of multiplication.
pub proof fn lemma_mul_one(x: Gf25)
    requires
        x.canonical(),
    ensures
        x.mul(Gf25::one()) == x,
        Gf25::one().mul(x) == x,
{
    lemma_reduce_twice(x.re);
    lemma_reduce_twice(x.im);
}

/// Addition is associative.
pub proof fn lemma_add_associative(x: Gf25, y: Gf25, z: Gf25)
    ensures
        x.add(y).add(z) == x.add(y.add(z)),
{
    lemma_add_of_congruent(x.add(y), z, raw_add(x, y), z);
    lemma_add_of_congruent(x, y.add(z), x, raw_add(y, z));
}

/// Addition is commutative.
pub proof fn lemma_add_commutative(x: Gf25, y: Gf25)
    ensures
        x.add(y) == y.add(x),
{
}

/// An element and its negative add up to zero, and subtracting is adding
/// the negative.
pub proof fn lemma_add_neg(x: Gf25, y: Gf25)
    ensures
        x.add(x.neg()) == Gf25::zero(),
        x.sub(y) == x.add(y.neg()),
{
    lemma_add_of_congruent(x, x.neg(), x, raw_neg(x));
    lemma_add_of_congruent(x, y.neg(), x, raw_neg(y));
    lemma_add_of_congruent(x, y, x, y);
    lemma_residue_is(0, 0, 0);
}

/// Zero is the only canonical element that is its own negative.
pub proof fn lemma_neg_fixes_zero(x: Gf25)
    requires
        x.canonical(),
    ensures
        x.neg() == x <==> x == Gf25::zero(),
        x.neg().canonical(),
{
    lemma_negative_residue(x.re);
    lemma_negative_residue(x.im);
}

/// Subtraction the other way round gives the negative, and two canonical
/// elements differ by zero only if they are equal.
pub proof fn lemma_sub_swap(x: Gf25, y: Gf25)
    ensures
        x.sub(y) == y.sub(x).neg(),
        x.canonical() && y.canonical() && x.sub(y) == Gf25::zero() ==> x == y,
{
    lemma_scale_mod5(y.re - x.re);
    lemma_scale_mod5(y.im - x.im);
    if x.canonical() && y.canonical() && x.sub(y) == Gf25::zero() {
        lemma_equal_residues(x.re, y.re);
        lemma_equal_residues(x.im, y.im);
    }
}

/// Two subtractions may be made in either order.
pub proof fn lemma_sub_sub(x: Gf25, y: Gf25, z: Gf25)
    ensures
        x.sub(y).sub(z) == x.sub(z).sub(y),
{
    lemma_congruent_differences((x.re - y.re) % 5, x.re - y.re, z.re, z.re);
    lemma_congruent_differences((x.im - y.im) % 5, x.im - y.im, z.im, z.im);
    lemma_congruent_differences((x.re - z.re) % 5, x.re - z.re, y.re, y.re);
    lemma_congruent_differences((x.im - z.im) % 5, x.im - z.im, y.im, y.im);
}

/// If `v − u = y − x`, then `u − w − x = v − w − y`.
pub proof fn lemma_sub_shift(u: Gf25, v: Gf25, w: Gf25, x: Gf25, y: Gf25)
    requires
        v.sub(u) == y.sub(x),
    ensures
        u.sub(w).sub(x) == v.sub(w).sub(y),
{
    lemma_shifted_differences(u.re, v.re, w.re, x.re, y.re);
    lemma_shifted_differences(u.im, v.im, w.im, x.im, y.im);
}

/// Multiplication is commutative.
pub proof fn lemma_mul_commutative(x: Gf25, y: Gf25)
    ensures
        x.mul(y) == y.mul(x),
{
    lemma_mul_is_commutative(x.re, y.re);
    lemma_mul_is_commutative(x.im, y.im);
    lemma_mul_is_commutative(x.re, y.im);
    lemma_mul_is_commutative(x.im, y.re);
}

/// Multiplication is associative.
pub proof fn lemma_mul_associative(x: Gf25, y: Gf25, z: Gf25)
    ensures
        x.mul(y).mul(z) == x.mul(y.mul(z)),
{
    lemma_mul_of_congruent(x.mul(y), z, raw_mul(x, y), z);
    lemma_mul_of_congruent(x, y.mul(z), x, raw_mul(y, z));
    lemma_raw_mul_associative(x, y, z);
}

/// Multiplication distributes over addition and subtraction.
pub proof fn lemma_mul_distributive(x: Gf25, y: Gf25, z: Gf25)
    ensures
        x.mul(y.add(z)) == x.mul(y).add(x.mul(z)),
        x.mul(y.sub(z)) == x.mul(y).sub(x.mul(z)),
{
    lemma_raw_mul_distributive(x, y, z);
    lemma_mul_of_congruent(x, y, x, y);
    lemma_mul_of_congruent(x, z, x, z);
    assert(x.mul(y.add(z)) == x.mul(y).add(x.mul(z))) by {
        lemma_mul_of_congruent(x, y.add(z), x, raw_add(y, z));
        lemma_add_of_congruent(x.mul(y), x.mul(z), raw_mul(x, y), raw_mul(x, z));
    }
    assert(x.mul(y.sub(z)) == x.mul(y).sub(x.mul(z))) by {
        lemma_mul_of_congruent(x, y.sub(z), x, raw_sub(y, z));
        lemma_add_of_congruent(x.mul(y), x.mul(z), raw_mul(x, y), raw_mul(x, z));
    }
}

/// The product with a negative is the negative of the product.
pub proof fn lemma_mul_neg(x: Gf25, y: Gf25)
    ensures
        x.mul(y.neg()) == x.mul(y).neg(),
        x.neg().mul(y) == x.mul(y).neg(),
        x.neg().mul(y.neg()) == x.mul(y),
{
    lemma_raw_mul_neg(x, y);
    lemma_mul_of_congruent(x, y, x, y);
    lemma_neg_of_congruent(x.mul(y), raw_mul(x, y));
    lemma_neg_of_congruent(x, x);
    lemma_neg_of_congruent(y, y);
    assert(x.mul(y.neg()) == x.mul(y).neg()) by {
        lemma_mul_of_congruent(x, y.neg(), x, raw_neg(y));
    }
    assert(x.neg().mul(y) == x.mul(y).neg()) by {
        lemma_mul_of_congruent(x.neg(), y, raw_neg(x), y);
    }
    assert(x.neg().mul(y.neg()) == x.mul(y)) by {
        lemma_mul_of_congruent(x.neg(), y.neg(), raw_neg(x), raw_neg(y));
    }
}

/// Every residue but zero has an inverse modulo 5.
pub proof fn lemma_base_field_inverse_exists(n: int)
    requires
        1 <= n < 5,
    ensures
        exists|i: int| is_mod_inverse(n, i, 5),
{
    if n == 1 {
        assert(is_mod_inverse(1, 1, 5));
    } else if n == 2 {
        assert(is_mod_inverse(2, 3, 5));
    } else if n == 3 {
        assert(is_mod_inverse(3, 2, 5));
    } else {
        assert(is_mod_inverse(4, 4, 5));
    }
}

proof fn lemma_norm_nonzero_coefficients(a: int, b: int)
    by (nonlinear_arith)
    requires
        0 <= a < 5,
        0 <= b < 5,
        a != 0 || b != 0,
    ensures
        (a * a - 3 * (b * b)) % 5 != 0,
{
}

/// The norm of an element other than zero is not zero: 3 is no square
/// modulo 5.
pub proof fn lemma_norm_nonzero(x: Gf25)
    requires
        x.canonical(),
        x != Gf25::zero(),
    ensures
        1 <= x.norm() < 5,
{
    lemma_norm_nonzero_coefficients(x.re, x.im);
}

/// The conjugate `a − b·t` times the inverse `k` of the norm is a
/// multiplicative inverse of `a + b·t`.
pub proof fn lemma_norm_quotient_is_inverse(x: Gf25, k: int)
    requires
        is_mod_inverse(x.norm(), k, 5),
    ensures
        x.mul(Gf25::reduce(x.re * k, 5 - (x.im * k) % 5)) == Gf25::one(),
{
    let y = Gf25::reduce(x.re * k, 5 - (x.im * k) % 5);
    let y0 = Gf25 { re: x.re * k, im: -(x.im * k) };
    lemma_mul_of_congruent(x, y, x, y0);
    lemma_raw_norm_quotient(x, k);
    lemma_mul_mod5(x.re * x.re - 3 * (x.im * x.im), k);
}

/// An element has at most one multiplicative inverse, so any canonical `y`
/// with `x·y = 1` is `x.inv()`.
pub proof fn lemma_inv_unique(x: Gf25, y: Gf25)
    requires
        y.canonical(),
        x.mul(y) == Gf25::one(),
    ensures
        x.inv() == y,
{
    let z = x.inv();
    // y = y·(x·z) = (y·x)·z = z
    lemma_mul_one(y);
    lemma_mul_one(z);
    lemma_mul_commutative(x, y);
    lemma_mul_associative(y, x, z);
}

/// Every element but zero has an inverse: its product with the element
/// is one.
pub proof fn lemma_mul_inv(x: Gf25)
    requires
        x.canonical(),
        x != Gf25::zero(),
    ensures
        x.inv().canonical(),
        x.mul(x.inv()) == Gf25::one(),
        x.inv().mul(x) == Gf25::one(),
{
    lemma_norm_nonzero(x);
    lemma_base_field_inverse_exists(x.norm());
    let k = choose|k: int| is_mod_inverse(x.norm(), k, 5);
    lemma_norm_quotient_is_inverse(x, k);
    let y = Gf25::reduce(x.re * k, 5 - (x.im * k) % 5);
    assert(y.canonical() && x.mul(y) == Gf25::one());
    lemma_mul_commutative(x, x.inv());
}

/// The inverse by the norm map: the conjugate `a − b·t` times the inverse
/// `k` of the norm.
pub proof fn lemma_inv_by_norm(x: Gf25, k: int)
    requires
        is_mod_inverse(x.norm(), k, 5),
    ensures
        x.inv() == Gf25::reduce(x.re * k, -(x.im * k)),
{
    lemma_norm_quotient_is_inverse(x, k);
    lemma_scale_mod5(x.im * k);
    lemma_inv_unique(x, Gf25::reduce(x.re * k, -(x.im * k)));
}

/// Dividing by an element other than zero undoes multiplying by it, and
/// the other way round.
pub proof fn lemma_div_mul(x: Gf25, y: Gf25)
    requires
        x.canonical(),
        y.canonical(),
        y != Gf25::zero(),
    ensures
        x.div(y).mul(y) == x,
        x.mul(y).div(y) == x,
{
    lemma_mul_inv(y);
    lemma_mul_one(x);
    lemma_mul_associative(x, y.inv(), y);
    lemma_mul_associative(x, y, y.inv());
}

/// The inverse of a negative is the negative of the inverse, and a
/// quotient of negatives is the quotient.
pub proof fn lemma_div_neg(x: Gf25, y: Gf25)
    requires
        y.canonical(),
        y != Gf25::zero(),
    ensures
        y.neg().inv() == y.inv().neg(),
        x.neg().div(y.neg()) == x.div(y),
{
    lemma_mul_inv(y);
    lemma_mul_neg(y, y.inv());
    lemma_inv_unique(y.neg(), y.inv().neg());
    lemma_mul_neg(x, y.inv());
}

/// A product is zero only if a factor is.
pub proof fn lemma_no_zero_divisors(x: Gf25, y: Gf25)
    requires
        x.canonical(),
        y.canonical(),
        x.mul(y) == Gf25::zero(),
    ensures
        x == Gf25::zero() || y == Gf25::zero(),
{
    if y != Gf25::zero() {
        lemma_div_mul(x, y);
        assert(Gf25::zero().mul(y.inv()) == Gf25::zero());
    }
}

/// The arithmetic stays within the canonical elements.
pub proof fn lemma_closed(x: Gf25, y: Gf25)
    ensures
        x.add(y).canonical(),
        x.sub(y).canonical(),
        x.mul(y).canonical(),
        x.neg().canonical(),
        x.frobenius().canonical(),
{
    lemma_division(x.re + y.re);
    lemma_division(x.im + y.im);
    lemma_division(x.re - y.re);
    lemma_division(x.im - y.im);
    lemma_division(x.re * y.re + 3 * (x.im * y.im));
    lemma_division(x.re * y.im + x.im * y.re);
    lemma_division(-x.re);
    lemma_division(-x.im);
    lemma_division(x.re);
    lemma_division(4 * x.im);
}

/// Applying the Frobenius map twice gives the element back.
pub proof fn lemma_frobenius_involution(x: Gf25)
    requires
        x.canonical(),
    ensures
        x.frobenius().frobenius() == x,
{
    lemma_reduce_twice(x.re);
    lemma_reduce_twice(x.re % 5);
    lemma_scale_mod5(4 * x.im);
    lemma_residue_is(4 * (4 * x.im), x.im, 3 * x.im);
}

/// The Frobenius map fixes the base field, and nothing else.
pub proof fn lemma_frobenius_fixes_base_field(x: Gf25)
    requires
        x.canonical(),
    ensures
        x.frobenius() == x <==> x.im == 0,
{
    lemma_reduce_twice(x.re);
    let q = lemma_division(4 * x.im);
}

/// The Frobenius map keeps sums.
proof fn lemma_frobenius_additive(x: Gf25, y: Gf25)
    ensures
        x.add(y).frobenius() == x.frobenius().add(y.frobenius()),
{
    let fx = Gf25 { re: x.re, im: 4 * x.im };
    let fy = Gf25 { re: y.re, im: 4 * y.im };
    lemma_neg_of_congruent(x.add(y), raw_add(x, y));
    lemma_add_of_congruent(x.frobenius(), y.frobenius(), fx, fy);
}

/// The Frobenius map keeps products.
proof fn lemma_frobenius_multiplicative(x: Gf25, y: Gf25)
    ensures
        x.mul(y).frobenius() == x.frobenius().mul(y.frobenius()),
{
    let fx = Gf25 { re: x.re, im: 4 * x.im };
    let fy = Gf25 { re: y.re, im: 4 * y.im };
    let product = raw_mul(x, y);
    let twisted = Gf25 { re: product.re + 45 * (x.im * y.im), im: 4 * product.im };
    assert(x.mul(y).frobenius() == Gf25::reduce(product.re, 4 * product.im)) by {
        lemma_mul_of_congruent(x, y, x, y);
        lemma_neg_of_congruent(x.mul(y), product);
    }
    assert(x.frobenius().mul(y.frobenius()) == Gf25::reduce(twisted.re, twisted.im)) by {
        lemma_mul_of_congruent(x.frobenius(), y.frobenius(), fx, fy);
        lemma_raw_mul_frobenius(x, y);
    }
    assert(Gf25::reduce(twisted.re, twisted.im) == Gf25::reduce(product.re, 4 * product.im)) by {
        lemma_multiple_of_five(product.re, 9 * (x.im * y.im));
    }
}

/// The Frobenius map keeps zero, one, sums and products: it is an
/// automorphism of the field.
pub proof fn lemma_frobenius_automorphism(x: Gf25, y: Gf25)
    ensures
        Gf25::zero().frobenius() == Gf25::zero(),
        Gf25::one().frobenius() == Gf25::one(),
        x.add(y).frobenius() == x.frobenius().add(y.frobenius()),
        x.mul(y).frobenius() == x.frobenius().mul(y.frobenius()),
{
    lemma_frobenius_additive(x, y);
    lemma_frobenius_multiplicative(x, y);
}

/// The fifth power `x⁵`.
pub open spec fn fifth_power(x: Gf25) -> Gf25 {
    x.mul(x).mul(x).mul(x).mul(x)
}

/// The fifth power from the square and the fourth power.
proof fn lemma_fifth_power_of(x: Gf25, square: Gf25, fourth: Gf25)
    requires
        square == x.mul(x),
        fourth == square.mul(square),
        x.frobenius() == fourth.mul(x),
    ensures
        x.frobenius() == fifth_power(x),
{
    lemma_mul_associative(square, x, x);
}

/// The Frobenius map is the fifth power. Each line below holds an element,
/// its square and its fourth power.
pub proof fn lemma_frobenius_fifth_power(x: Gf25)
    requires
        x.canonical(),
    ensures
        x.frobenius() == fifth_power(x),
{
    assert(x == element(x.re, x.im));
    lemma_fifth_power_of(element(0, 0), element(0, 0), element(0, 0));
    lemma_fifth_power_of(element(0, 1), element(3, 0), element(4, 0));
    lemma_fifth_power_of(element(0, 2), element(2, 0), element(4, 0));
    lemma_fifth_power_of(element(0, 3), element(2, 0), element(4, 0));
    lemma_fifth_power_of(element(0, 4), element(3, 0), element(4, 0));
    lemma_fifth_power_of(element(1, 0), element(1, 0), element(1, 0));
    lemma_fifth_power_of(element(1, 1), element(4, 2), element(3, 1));
    lemma_fifth_power_of(element(1, 2), element(3, 4), element(2, 4));
    lemma_fifth_power_of(element(1, 3), element(3, 1), element(2, 1));
    lemma_fifth_power_of(element(1, 4), element(4, 3), element(3, 4));
    lemma_fifth_power_of(element(2, 0), element(4, 0), element(1, 0));
    lemma_fifth_power_of(element(2, 1), element(2, 4), element(2, 1));
    lemma_fifth_power_of(element(2, 2), element(1, 3), element(3, 1));
    lemma_fifth_power_of(element(2, 3), element(1, 2), element(3, 4));
    lemma_fifth_power_of(element(2, 4), element(2, 1), element(2, 4));
    lemma_fifth_power_of(element(3, 0), element(4, 0), element(1, 0));
    lemma_fifth_power_of(element(3, 1), element(2, 1), element(2, 4));
    lemma_fifth_power_of(element(3, 2), element(1, 2), element(3, 4));
    lemma_fifth_power_of(element(3, 3), element(1, 3), element(3, 1));
    lemma_fifth_power_of(element(3, 4), element(2, 4), element(2, 1));
    lemma_fifth_power_of(element(4, 0), element(1, 0), element(1, 0));
    lemma_fifth_power_of(element(4, 1), element(4, 3), element(3, 4));
    lemma_fifth_power_of(element(4, 2), element(3, 1), element(2, 1));
    lemma_fifth_power_of(element(4, 3), element(3, 4), element(2, 4));
    lemma_fifth_power_of(element(4, 4), element(4, 2), element(3, 1));
}

} // verus!
