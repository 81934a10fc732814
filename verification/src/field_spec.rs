//! The mathematical model of GF(5²): pairs of residues modulo 5 standing for
//! `re + im·t`, with `t` a root of the irreducible polynomial `x² + 2`.

use vstd::prelude::*;

verus! {

/// `i` is the multiplicative inverse of `x` among the residues `1..p`.
pub open spec fn is_mod_inverse(x: int, i: int, p: int) -> bool {
    1 <= i < p && (x * i) % p == 1
}

/// An element `re + im·t` of GF(5²), where `t² = 3`.
pub struct Gf25 {
    pub re: int,
    pub im: int,
}

impl Gf25 {
    /// Both coefficients are reduced residues modulo 5.
    pub open spec fn canonical(self) -> bool {
        0 <= self.re < 5 && 0 <= self.im < 5
    }

    /// The element with the given coefficients, reduced modulo 5.
    pub open spec fn reduce(re: int, im: int) -> Gf25 {
        Gf25 { re: re % 5, im: im % 5 }
    }

    /// The additive identity.
    #[verifier::inline]
    pub open spec fn zero() -> Gf25 {
        Gf25 { re: 0, im: 0 }
    }

    /// The multiplicative identity.
    #[verifier::inline]
    pub open spec fn one() -> Gf25 {
        Gf25 { re: 1, im: 0 }
    }

    /// Coefficientwise sum.
    pub open spec fn add(self, rhs: Gf25) -> Gf25 {
        Gf25::reduce(self.re + rhs.re, self.im + rhs.im)
    }

    /// Coefficientwise difference.
    pub open spec fn sub(self, rhs: Gf25) -> Gf25 {
        Gf25::reduce(self.re - rhs.re, self.im - rhs.im)
    }

    /// The additive inverse.
    pub open spec fn neg(self) -> Gf25 {
        Gf25::reduce(-self.re, -self.im)
    }

    /// The product `(a + b·t)(c + d·t) = (ac + 3bd) + (ad + bc)·t`.
    pub open spec fn mul(self, rhs: Gf25) -> Gf25 {
        Gf25::reduce(
            self.re * rhs.re + 3 * (self.im * rhs.im),
            self.re * rhs.im + self.im * rhs.re,
        )
    }

    /// The norm `a² − 3b²` down to the base field, as a residue modulo 5.
    pub open spec fn norm(self) -> int {
        (self.re * self.re - 3 * (self.im * self.im)) % 5
    }

    /// The multiplicative inverse: the canonical element whose product with
    /// `self` is one. Meaningful for every canonical element but zero.
    pub open spec fn inv(self) -> Gf25 {
        choose|y: Gf25| y.canonical() && self.mul(y) == Gf25::one()
    }

    /// The quotient `self / rhs`, for a divisor other than zero.
    pub open spec fn div(self, rhs: Gf25) -> Gf25 {
        self.mul(rhs.inv())
    }

    /// The Frobenius automorphism `x ↦ x⁵`, which sends `t` to `4t`.
    pub open spec fn frobenius(self) -> Gf25 {
        Gf25::reduce(self.re, 4 * self.im)
    }
}

/// The element `re + im·t`.
#[verifier::inline]
pub open spec fn element(re: int, im: int) -> Gf25 {
    Gf25 { re, im }
}

/// The decimal digit of a residue modulo 5.
pub open spec fn digit_text(d: int) -> Seq<char> {
    if d == 0 {
        "0"@
    } else if d == 1 {
        "1"@
    } else if d == 2 {
        "2"@
    } else if d == 3 {
        "3"@
    } else {
        "4"@
    }
}

/// How an element is written: `0`, `a`, `bt` or `a + bt`, leaving out a
/// coefficient that is zero.
pub open spec fn element_text(e: Gf25) -> Seq<char> {
    if e.re == 0 && e.im == 0 {
        "0"@
    } else if e.im == 0 {
        digit_text(e.re)
    } else if e.re == 0 {
        digit_text(e.im) + "t"@
    } else {
        digit_text(e.re) + " + "@ + digit_text(e.im) + "t"@
    }
}

} // verus!
