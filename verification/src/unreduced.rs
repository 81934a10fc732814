//! Arithmetic on `a + b·t` with integer coefficients that are not reduced.
//!
//! The sums and products of the field reduce their coefficients modulo 5 at
//! every step. Here are sums and products that do not reduce at all: they
//! obey the laws of integer polynomials with `t² = 3`, and they agree with
//! those of the field modulo 5. A law of the field is proved by proving it
//! here and reducing once at the end.

use vstd::prelude::*;
use vstd::arithmetic::div_mod::lemma_fundamental_div_mod;
use vstd::arithmetic::div_mod::lemma_fundamental_div_mod_converse_mod;
use vstd::arithmetic::div_mod::lemma_mod_bound;
use vstd::arithmetic::div_mod::lemma_mod_multiples_vanish;
use vstd::arithmetic::div_mod::lemma_mul_mod_noop_general;
use vstd::arithmetic::mul::lemma_mul_is_associative;
use vstd::arithmetic::mul::lemma_mul_is_distributive_add;
use vstd::arithmetic::mul::lemma_mul_is_distributive_add_other_way;
use vstd::arithmetic::mul::lemma_mul_is_distributive_sub;
use vstd::arithmetic::mul::lemma_mul_is_distributive_sub_other_way;
use vstd::arithmetic::mul::lemma_mul_unary_negation;
use crate::field_spec::Gf25;

verus! {

/// The coefficients of `x` and `y` agree modulo 5.
pub open spec fn congruent(x: Gf25, y: Gf25) -> bool {
    x.re % 5 == y.re % 5 && x.im % 5 == y.im % 5
}

/// The sum of `x` and `y` with integer coefficients, not reduced.
pub open spec fn raw_add(x: Gf25, y: Gf25) -> Gf25 {
    Gf25 { re: x.re + y.re, im: x.im + y.im }
}

/// The difference of `x` and `y` with integer coefficients, not reduced.
pub open spec fn raw_sub(x: Gf25, y: Gf25) -> Gf25 {
    Gf25 { re: x.re - y.re, im: x.im - y.im }
}

/// The negative with integer coefficients, not reduced.
pub open spec fn raw_neg(x: Gf25) -> Gf25 {
    Gf25 { re: -x.re, im: -x.im }
}

/// The product of `x` and `y` with integer coefficients and `t² = 3`, not
/// reduced.
pub open spec fn raw_mul(x: Gf25, y: Gf25) -> Gf25 {
    Gf25 { re: x.re * y.re + 3 * (x.im * y.im), im: x.re * y.im + x.im * y.re }
}

/// A factor of a product may be reduced modulo 5 without changing the
/// product modulo 5.
pub proof fn lemma_mul_mod5(x: int, y: int)
    ensures
        (x * (y % 5)) % 5 == (x * y) % 5,
        ((x % 5) * y) % 5 == (x * y) % 5,
        ((x % 5) * (y % 5)) % 5 == (x * y) % 5,
{
    lemma_mul_mod_noop_general(x, y, 5);
}

/// The quotient `q` of a division by 5, with the remainder in `0..5`.
pub proof fn lemma_division(x: int) -> (q: int)
    ensures
        x == 5 * q + x % 5,
        0 <= x % 5 < 5,
{
    lemma_fundamental_div_mod(x, 5);
    lemma_mod_bound(x, 5);
    x / 5
}

/// Numbers that differ by a multiple of 5 have the same remainder.
pub proof fn lemma_same_residue(x: int, y: int, k: int)
    requires
        x == y + 5 * k,
    ensures
        x % 5 == y % 5,
{
    lemma_mod_multiples_vanish(k, y, 5);
}

/// Numbers with the same remainder differ by a multiple of 5.
pub proof fn lemma_residue_difference(x: int, y: int) -> (k: int)
    requires
        x % 5 == y % 5,
    ensures
        x == y + 5 * k,
{
    let qx = lemma_division(x);
    let qy = lemma_division(y);
    qx - qy
}

/// A number that a multiple of 5 parts from a residue has that remainder.
pub proof fn lemma_residue_is(x: int, r: int, k: int)
    requires
        x == r + 5 * k,
        0 <= r < 5,
    ensures
        x % 5 == r,
{
    lemma_fundamental_div_mod_converse_mod(x, 5, k, r);
}

/// Reducing twice is reducing once, and a residue is its own reduction.
pub proof fn lemma_reduce_twice(u: int)
    ensures
        (u % 5) % 5 == u % 5,
        0 <= u % 5 < 5,
        0 <= u < 5 ==> u % 5 == u,
{
    let q = lemma_division(u);
    lemma_residue_is(u % 5, u % 5, 0);
    if 0 <= u < 5 {
        lemma_residue_is(u, u, 0);
    }
}

/// The coefficients of a product may be worked out from the four products
/// of coefficients, each reduced modulo 5 first.
pub proof fn lemma_product_mod5(ac: int, bd: int, ad: int, bc: int)
    ensures
        ((ac % 5 + 3 * (bd % 5)) % 5) % 5 == (ac + 3 * bd) % 5,
        (((ad + bc) % 5) % 5) % 5 == (ad + bc) % 5,
{
    let q1 = lemma_division(ac);
    let q2 = lemma_division(bd);
    lemma_same_residue(ac % 5 + 3 * (bd % 5), ac + 3 * bd, -(q1 + 3 * q2));
    lemma_reduce_twice(ac % 5 + 3 * (bd % 5));
    lemma_reduce_twice(ad + bc);
    lemma_reduce_twice((ad + bc) % 5);
}

/// Adding 5 to a difference changes nothing modulo 5.
pub proof fn lemma_shifted_difference(u: int, v: int)
    ensures
        (u + 5 - v) % 5 == (u - v) % 5,
{
    lemma_same_residue(u + 5 - v, u - v, 1);
}

/// A difference modulo 5 may be taken without leaving the natural numbers.
pub proof fn lemma_difference_mod5(u: int, v: int)
    ensures
        (u + 5 - v % 5) % 5 == (u - v) % 5,
{
    let q = lemma_division(v);
    lemma_same_residue(u + 5 - v % 5, u - v, 1 + q);
}

/// Adding a multiple of 5 changes nothing modulo 5.
pub proof fn lemma_multiple_of_five(u: int, v: int)
    ensures
        (u + 5 * v) % 5 == u % 5,
{
    lemma_same_residue(u + 5 * v, u, v);
}

/// Two residues that differ by a multiple of 5 are equal.
pub proof fn lemma_equal_residues(u: int, v: int)
    requires
        0 <= u < 5,
        0 <= v < 5,
        (u - v) % 5 == 0,
    ensures
        u == v,
{
    let q = lemma_division(u - v);
}

/// Congruent terms give congruent sums `u + 3v` and `u + v`.
pub proof fn lemma_congruent_sums(u1: int, u2: int, v1: int, v2: int)
    requires
        u1 % 5 == u2 % 5,
        v1 % 5 == v2 % 5,
    ensures
        (u1 + 3 * v1) % 5 == (u2 + 3 * v2) % 5,
        (u1 + v1) % 5 == (u2 + v2) % 5,
{
    let k = lemma_residue_difference(u1, u2);
    let l = lemma_residue_difference(v1, v2);
    lemma_same_residue(u1 + 3 * v1, u2 + 3 * v2, k + 3 * l);
    lemma_same_residue(u1 + v1, u2 + v2, k + l);
}

/// Congruent terms give congruent differences.
pub proof fn lemma_congruent_differences(u1: int, u2: int, v1: int, v2: int)
    requires
        u1 % 5 == u2 % 5,
        v1 % 5 == v2 % 5,
    ensures
        (u1 - v1) % 5 == (u2 - v2) % 5,
{
    let k = lemma_residue_difference(u1, u2);
    let l = lemma_residue_difference(v1, v2);
    lemma_same_residue(u1 - v1, u2 - v2, k - l);
}

/// A term may be reduced modulo 5 before it is negated or multiplied by 4.
pub proof fn lemma_scale_mod5(u: int)
    ensures
        (-(u % 5)) % 5 == (-u) % 5,
        (4 * (u % 5)) % 5 == (4 * u) % 5,
{
    let q = lemma_division(u);
    lemma_same_residue(-(u % 5), -u, q);
    lemma_same_residue(4 * (u % 5), 4 * u, -4 * q);
}

/// The negative of a residue is zero for zero, and 5 less the residue for
/// any other.
pub proof fn lemma_negative_residue(u: int)
    requires
        0 <= u < 5,
    ensures
        u == 0 ==> (-u) % 5 == 0,
        u != 0 ==> (-u) % 5 == 5 - u,
{
    if u == 0 {
        lemma_residue_is(-u, 0, 0);
    } else {
        lemma_residue_is(-u, 5 - u, -1);
    }
}

/// Congruent factors give congruent products.
pub proof fn lemma_congruent_products(u1: int, u2: int, v1: int, v2: int)
    requires
        u1 % 5 == u2 % 5,
        v1 % 5 == v2 % 5,
    ensures
        (u1 * v1) % 5 == (u2 * v2) % 5,
{
    lemma_mul_mod5(u1, v1);
    lemma_mul_mod5(u2, v2);
}

/// If `v − u` and `y − x` agree modulo 5, so do `u − w − x` and
/// `v − w − y`, where `u − w` and `v − w` may be reduced first.
pub proof fn lemma_shifted_differences(u: int, v: int, w: int, x: int, y: int)
    requires
        (v - u) % 5 == (y - x) % 5,
    ensures
        ((u - w) % 5 - x) % 5 == ((v - w) % 5 - y) % 5,
{
    lemma_congruent_differences((u - w) % 5, u - w, x, x);
    lemma_congruent_differences((v - w) % 5, v - w, y, y);
    lemma_congruent_differences(v - u, y - x, y - x, y - x);
    lemma_congruent_sums(u - w - x, u - w - x, (v - u) - (y - x), 0);
}

/// Congruent elements have congruent products.
pub proof fn lemma_raw_mul_congruent(x1: Gf25, x2: Gf25, y1: Gf25, y2: Gf25)
    requires
        congruent(x1, x2),
        congruent(y1, y2),
    ensures
        congruent(raw_mul(x1, y1), raw_mul(x2, y2)),
{
    lemma_congruent_products(x1.re, x2.re, y1.re, y2.re);
    lemma_congruent_products(x1.im, x2.im, y1.im, y2.im);
    lemma_congruent_products(x1.re, x2.re, y1.im, y2.im);
    lemma_congruent_products(x1.im, x2.im, y1.re, y2.re);
    lemma_congruent_sums(x1.re * y1.re, x2.re * y2.re, x1.im * y1.im, x2.im * y2.im);
    lemma_congruent_sums(x1.re * y1.im, x2.re * y2.im, x1.im * y1.re, x2.im * y2.re);
}

/// The product of the model is the product of any two elements congruent
/// to the factors, reduced.
pub proof fn lemma_mul_of_congruent(x: Gf25, y: Gf25, x0: Gf25, y0: Gf25)
    requires
        congruent(x, x0),
        congruent(y, y0),
    ensures
        congruent(x.mul(y), raw_mul(x0, y0)),
        x.mul(y) == Gf25::reduce(raw_mul(x0, y0).re, raw_mul(x0, y0).im),
{
    lemma_raw_mul_congruent(x, x0, y, y0);
}

/// The sum and the difference of the model are those of any two elements
/// congruent to the terms, reduced.
pub proof fn lemma_add_of_congruent(x: Gf25, y: Gf25, x0: Gf25, y0: Gf25)
    requires
        congruent(x, x0),
        congruent(y, y0),
    ensures
        x.add(y) == Gf25::reduce(raw_add(x0, y0).re, raw_add(x0, y0).im),
        x.sub(y) == Gf25::reduce(raw_sub(x0, y0).re, raw_sub(x0, y0).im),
{
    lemma_congruent_sums(x.re, x0.re, y.re, y0.re);
    lemma_congruent_sums(x.im, x0.im, y.im, y0.im);
    lemma_congruent_differences(x.re, x0.re, y.re, y0.re);
    lemma_congruent_differences(x.im, x0.im, y.im, y0.im);
}

/// The negative and the Frobenius image of the model are those of any
/// element congruent to the argument, reduced.
pub proof fn lemma_neg_of_congruent(x: Gf25, x0: Gf25)
    requires
        congruent(x, x0),
    ensures
        x.neg() == Gf25::reduce(-x0.re, -x0.im),
        x.frobenius() == Gf25::reduce(x0.re, 4 * x0.im),
{
    lemma_scale_mod5(x.re);
    lemma_scale_mod5(x.im);
    lemma_scale_mod5(x0.re);
    lemma_scale_mod5(x0.im);
}

/// Products of three elements with integer coefficients may be bracketed
/// either way.
pub proof fn lemma_raw_mul_associative(x: Gf25, y: Gf25, z: Gf25)
    ensures
        raw_mul(raw_mul(x, y), z) == raw_mul(x, raw_mul(y, z)),
{
    let (a, b, c, d, e, f) = (x.re, x.im, y.re, y.im, z.re, z.im);
    lemma_mul_is_distributive_add_other_way(e, a * c, 3 * (b * d));
    lemma_mul_is_distributive_add_other_way(f, a * d, b * c);
    lemma_mul_is_distributive_add_other_way(f, a * c, 3 * (b * d));
    lemma_mul_is_distributive_add_other_way(e, a * d, b * c);
    lemma_mul_is_distributive_add(a, c * e, 3 * (d * f));
    lemma_mul_is_distributive_add(b, c * f, d * e);
    lemma_mul_is_distributive_add(a, c * f, d * e);
    lemma_mul_is_distributive_add(b, c * e, 3 * (d * f));
    lemma_mul_is_associative(a, c, e);
    lemma_mul_is_associative(a, c, f);
    lemma_mul_is_associative(a, d, e);
    lemma_mul_is_associative(a, d, f);
    lemma_mul_is_associative(b, c, e);
    lemma_mul_is_associative(b, c, f);
    lemma_mul_is_associative(b, d, e);
    lemma_mul_is_associative(b, d, f);
    lemma_mul_is_associative(3, b * d, e);
    lemma_mul_is_associative(3, b * d, f);
    lemma_mul_is_associative(a, 3, d * f);
    lemma_mul_is_associative(b, 3, d * f);
    lemma_mul_is_associative(3, a, d * f);
    lemma_mul_is_associative(3, b, d * f);
}

/// Products with integer coefficients distribute over sums and differences.
pub proof fn lemma_raw_mul_distributive(x: Gf25, y: Gf25, z: Gf25)
    ensures
        raw_mul(x, raw_add(y, z)) == raw_add(raw_mul(x, y), raw_mul(x, z)),
        raw_mul(x, raw_sub(y, z)) == raw_sub(raw_mul(x, y), raw_mul(x, z)),
{
    let (a, b, c, d, e, f) = (x.re, x.im, y.re, y.im, z.re, z.im);
    lemma_mul_is_distributive_add(a, c, e);
    lemma_mul_is_distributive_add(a, d, f);
    lemma_mul_is_distributive_add(b, c, e);
    lemma_mul_is_distributive_add(b, d, f);
    lemma_mul_is_distributive_sub(a, c, e);
    lemma_mul_is_distributive_sub(a, d, f);
    lemma_mul_is_distributive_sub(b, c, e);
    lemma_mul_is_distributive_sub(b, d, f);
}

/// With integer coefficients, the product with a negative is the negative
/// of the product.
pub proof fn lemma_raw_mul_neg(x: Gf25, y: Gf25)
    ensures
        raw_mul(x, raw_neg(y)) == raw_neg(raw_mul(x, y)),
        raw_mul(raw_neg(x), y) == raw_neg(raw_mul(x, y)),
        raw_mul(raw_neg(x), raw_neg(y)) == raw_mul(x, y),
{
    let (a, b, c, d) = (x.re, x.im, y.re, y.im);
    lemma_mul_unary_negation(a, c);
    lemma_mul_unary_negation(a, d);
    lemma_mul_unary_negation(b, c);
    lemma_mul_unary_negation(b, d);
    lemma_mul_unary_negation(-a, c);
    lemma_mul_unary_negation(-a, d);
    lemma_mul_unary_negation(-b, c);
    lemma_mul_unary_negation(-b, d);
}

/// With integer coefficients, `a + b·t` times `k` times its conjugate is
/// `k` times its norm.
pub proof fn lemma_raw_norm_quotient(x: Gf25, k: int)
    ensures
        raw_mul(x, Gf25 { re: x.re * k, im: -(x.im * k) }) == (Gf25 {
            re: (x.re * x.re - 3 * (x.im * x.im)) * k,
            im: 0,
        }),
{
    let (a, b) = (x.re, x.im);
    lemma_mul_is_associative(a, a, k);
    lemma_mul_is_associative(a, b, k);
    lemma_mul_is_associative(b, a, k);
    lemma_mul_is_associative(b, b, k);
    lemma_mul_is_associative(3, b * b, k);
    lemma_mul_unary_negation(a, b * k);
    lemma_mul_unary_negation(b, b * k);
    lemma_mul_is_distributive_sub_other_way(k, a * a, 3 * (b * b));
}

/// With integer coefficients, the product of `a + 4b·t` and `c + 4d·t` is
/// that of `a + b·t` and `c + d·t` with its `t` multiplied by 4, up to a
/// multiple of 5.
pub proof fn lemma_raw_mul_frobenius(x: Gf25, y: Gf25)
    ensures
        raw_mul(Gf25 { re: x.re, im: 4 * x.im }, Gf25 { re: y.re, im: 4 * y.im }) == (Gf25 {
            re: raw_mul(x, y).re + 45 * (x.im * y.im),
            im: 4 * raw_mul(x, y).im,
        }),
{
    let (a, b, c, d) = (x.re, x.im, y.re, y.im);
    lemma_mul_is_associative(4, b, 4 * d);
    lemma_mul_is_associative(b, 4, d);
    lemma_mul_is_associative(4, b, d);
    lemma_mul_is_associative(a, 4, d);
    lemma_mul_is_associative(4, a, d);
    lemma_mul_is_associative(4, b, c);
}

} // verus!
