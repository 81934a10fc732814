//! Executable arithmetic in GF(5²).

use vstd::prelude::*;
use vstd::string::StringExecFns;
use crate::field_spec::digit_text;
use crate::field_spec::element_text;
use crate::field_spec::Gf25;
use crate::field_spec::is_mod_inverse;
use crate::unreduced::lemma_difference_mod5;
use crate::unreduced::lemma_product_mod5;
use crate::unreduced::lemma_reduce_twice;
use crate::unreduced::lemma_shifted_difference;
use crate::field_lemmas::lemma_base_field_inverse_exists;
use crate::field_lemmas::lemma_div_mul;
use crate::field_lemmas::lemma_frobenius_involution;
use crate::field_lemmas::lemma_inv_unique;
use crate::field_lemmas::lemma_norm_nonzero;
use crate::field_lemmas::lemma_norm_quotient_is_inverse;

verus! {

/// An element `a + b·t` of GF(5²), held as two reduced residues modulo 5.
#[derive(Clone, Copy, Debug, PartialEq, Eq, Structural)]
pub struct F5x2 {
    a: u8,
    b: u8,
}

impl View for F5x2 {
    type V = Gf25;

    closed spec fn view(&self) -> Gf25 {
        Gf25 { re: self.a as int, im: self.b as int }
    }
}

impl DeepView for F5x2 {
    type V = Gf25;

    open spec fn deep_view(&self) -> Gf25 {
        self@
    }
}

impl F5x2 {
    /// Every value of the type holds reduced coefficients.
    #[verifier::type_invariant]
    pub open spec fn wf(self) -> bool {
        self@.canonical()
    }

    /// Two values stand for the same field element only if they are equal.
    pub proof fn lemma_view_injective(x: F5x2, y: F5x2)
        ensures
            x@ == y@ <==> x == y,
    {
    }

    /// The element `a + b·t`, with both coefficients reduced modulo 5.
    pub fn new(a: u8, b: u8) -> (r: F5x2)
        ensures
            r@ == Gf25::reduce(a as int, b as int),
    {
        F5x2 { a: a % 5, b: b % 5 }
    }

    /// Whether this is the additive identity.
    pub fn is_zero(self) -> (z: bool)
        ensures
            z == (self@ == Gf25::zero()),
    {
        self.a == 0 && self.b == 0
    }

    /// The sum, coefficient by coefficient.
    pub fn add(self, other: F5x2) -> (r: F5x2)
        ensures
            r@ == self@.add(other@),
    {
        proof {
            use_type_invariant(&self);
            use_type_invariant(&other);
        }
        let a = (self.a + other.a) % 5;
        let b = (self.b + other.b) % 5;
        proof {
            lemma_reduce_twice(self.a + other.a);
            lemma_reduce_twice(self.b + other.b);
        }
        F5x2::new(a, b)
    }

    /// The difference, coefficient by coefficient.
    pub fn sub(self, other: F5x2) -> (r: F5x2)
        ensures
            r@ == self@.sub(other@),
    {
        proof {
            use_type_invariant(&self);
            use_type_invariant(&other);
        }
        let a = (self.a + 5 - other.a) % 5;
        let b = (self.b + 5 - other.b) % 5;
        proof {
            lemma_reduce_twice(self.a + 5 - other.a);
            lemma_reduce_twice(self.b + 5 - other.b);
            lemma_shifted_difference(self.a as int, other.a as int);
            lemma_shifted_difference(self.b as int, other.b as int);
        }
        F5x2::new(a, b)
    }

    /// The product, with `t² = 3`.
    pub fn mul(self, other: F5x2) -> (r: F5x2)
        ensures
            r@ == self@.mul(other@),
    {
        proof {
            use_type_invariant(&self);
            use_type_invariant(&other);
        }
        let a = self.a as i16;
        let b = self.b as i16;
        let c = other.a as i16;
        let d = other.b as i16;
        assert(0 <= a * c <= 16 && 0 <= b * d <= 16 && 0 <= a * d <= 16 && 0 <= b * c <= 16)
            by (nonlinear_arith)
            requires
                0 <= a < 5,
                0 <= b < 5,
                0 <= c < 5,
                0 <= d < 5,
        ;
        // t² = 3, so (a + b·t)(c + d·t) = (ac + 3bd) + (ad + bc)·t.
        let ac = (a * c) % 5;
        let bd = (b * d) % 5;
        let ad_plus_bc = (a * d + b * c) % 5;
        let new_a = (ac + 3 * bd) % 5;
        let new_b = ad_plus_bc % 5;
        let r = F5x2::new(new_a as u8, new_b as u8);
        proof {
            lemma_product_mod5(a * c, b * d, a * d, b * c);
            assert(r@.re == (a * c + 3 * (b * d)) % 5);
            assert(r@.im == (a * d + b * c) % 5);
        }
        r
    }

    /// The quotient `self / other`: the element whose product with `other`
    /// is `self`.
    pub fn div(self, other: F5x2) -> (r: F5x2)
        requires
            other@ != Gf25::zero(),
        ensures
            r@ == self@.div(other@),
            r@.mul(other@) == self@,
    {
        proof {
            use_type_invariant(&self);
            use_type_invariant(&other);
            lemma_div_mul(self@, other@);
        }
        let inv = other.inverse();
        self.mul(inv)
    }

    /// The multiplicative inverse, found as the conjugate `a − b·t` over the
    /// norm `a² − 3b²`.
    pub fn inverse(self) -> (r: F5x2)
        requires
            self@ != Gf25::zero(),
        ensures
            r@ == self@.inv(),
            self@.mul(r@) == Gf25::one(),
    {
        proof {
            use_type_invariant(&self);
        }
        let a = self.a;
        let b = self.b;
        assert(0 <= a * a <= 16 && 0 <= b * b <= 16) by (nonlinear_arith)
            requires
                0 <= a < 5,
                0 <= b < 5,
        ;
        let denominator = (a * a + 5 - (3 * (b * b)) % 5) % 5;
        assert(denominator == self@.norm()) by {
            lemma_difference_mod5(a * a, 3 * (b * b));
        }
        proof {
            lemma_norm_nonzero(self@);
            lemma_base_field_inverse_exists(self@.norm());
        }
        let inv_denominator = F5x2::mod_inverse(denominator, 5);
        assert(0 <= a * inv_denominator <= 16 && 0 <= b * inv_denominator <= 16)
            by (nonlinear_arith)
            requires
                0 <= a < 5,
                0 <= b < 5,
                0 <= inv_denominator < 5,
        ;
        let new_a = (a * inv_denominator) % 5;
        let new_b = 5 - (b * inv_denominator) % 5;
        let r = F5x2::new(new_a, new_b);
        proof {
            lemma_reduce_twice(a * inv_denominator);
            assert(r@ == Gf25::reduce(
                self@.re * inv_denominator,
                5 - (self@.im * inv_denominator) % 5,
            ));
            lemma_norm_quotient_is_inverse(self@, inv_denominator as int);
            lemma_inv_unique(self@, r@);
        }
        r
    }

    /// Whether `x` has an inverse modulo `p` among `1..p`, as `mod_inverse`
    /// needs.
    pub fn mod_inverse_exists(x: u8, p: u8) -> (found: bool)
        ensures
            found == exists|i: int| is_mod_inverse(x as int, i, p as int),
    {
        let mut i: u8 = 1;
        while i < p
            invariant
                1 <= i,
                forall|j: int| 1 <= j < i ==> !is_mod_inverse(x as int, j, p as int),
            decreases p - i,
        {
            assert(x * i <= 255 * 255) by (nonlinear_arith)
                requires
                    0 <= x <= 255,
                    0 <= i <= 255,
            ;
            if (x as u16 * i as u16) % (p as u16) == 1 {
                assert(is_mod_inverse(x as int, i as int, p as int));
                return true;
            }
            i += 1;
        }
        false
    }

    /// The inverse of `x` modulo `p`, searched for among `1..p` in rising
    /// order.
    pub fn mod_inverse(x: u8, p: u8) -> (r: u8)
        requires
            exists|i: int| is_mod_inverse(x as int, i, p as int),
        ensures
            is_mod_inverse(x as int, r as int, p as int),
            forall|j: int| 1 <= j < r ==> !is_mod_inverse(x as int, j, p as int),
    {
        let mut i: u8 = 1;
        loop
            invariant
                1 <= i < p,
                exists|k: int| i <= k && is_mod_inverse(x as int, k, p as int),
                forall|j: int| 1 <= j < i ==> !is_mod_inverse(x as int, j, p as int),
            decreases p - i,
        {
            assert(x * i <= 255 * 255) by (nonlinear_arith)
                requires
                    0 <= x <= 255,
                    0 <= i <= 255,
            ;
            if (x as u16 * i as u16) % (p as u16) == 1 {
                return i;
            }
            i += 1;
        }
    }

    /// The element in writing: `0`, `a`, `bt` or `a + bt`.
    pub fn to_text(&self) -> (s: String)
        ensures
            s@ == element_text(self@),
    {
        proof {
            use_type_invariant(self);
        }
        match (self.a, self.b) {
            (0, 0) => String::from_str("0"),
            (a, 0) => String::from_str(digit(a)),
            (0, b) => String::from_str(digit(b)).concat("t"),
            (a, b) => String::from_str(digit(a)).concat(" + ").concat(digit(b)).concat("t"),
        }
    }

    /// The Frobenius automorphism `x ↦ x⁵`: `t⁵ = (t²)²·t = 9t = 4t`, so
    /// `a + b·t` goes to `a + 4b·t`.
    pub fn frobenius(self) -> (r: F5x2)
        ensures
            r@ == self@.frobenius(),
            r@.frobenius() == self@,
    {
        proof {
            use_type_invariant(&self);
            lemma_frobenius_involution(self@);
        }
        let b = (4 * self.b) % 5;
        proof {
            lemma_reduce_twice(4 * self.b);
            lemma_reduce_twice(self.a as int);
        }
        F5x2::new(self.a, b)
    }
}

/// The decimal digit of a residue modulo 5.
fn digit(d: u8) -> (s: &'static str)
    requires
        d < 5,
    ensures
        s@ == digit_text(d as int),
{
    if d == 0 {
        "0"
    } else if d == 1 {
        "1"
    } else if d == 2 {
        "2"
    } else if d == 3 {
        "3"
    } else {
        "4"
    }
}

} // verus!
