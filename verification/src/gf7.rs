//! A small, fully verified prime field: the integers modulo 7.

use vstd::prelude::*;
use crate::field::FieldElement;

verus! {

/// An element of the prime field of order 7.
///
/// The element's mathematical value is the stored word's residue modulo 7
/// whatever the word holds, so the type needs no well-formedness invariant;
/// the operations nevertheless keep the word reduced below the modulus.
#[derive(Clone, Copy, Debug)]
pub struct Gf7 {
    /// The representative word; the element it denotes is `v % 7`.
    pub v: u64,
}

impl Gf7 {
    /// The additive inverse: `r` with `self + r == 0` in the field.
    pub fn neg(&self) -> (r: Gf7)
        ensures
            (self.value() + r.value()) % 7 == 0,
    {
        Gf7 { v: (7 - self.v % 7) % 7 }
    }
}

impl FieldElement for Gf7 {
    open spec fn modulus() -> int {
        7
    }

    open spec fn value(&self) -> int {
        self.v as int % 7
    }

    proof fn lemma_modulus() {
    }

    proof fn lemma_valid(&self) {
    }

    fn zero() -> (r: Self) {
        Gf7 { v: 0 }
    }

    fn one() -> (r: Self) {
        Gf7 { v: 1 }
    }

    fn from_u64(v: u64) -> (r: Self) {
        Gf7 { v: v % 7 }
    }

    fn add(self, rhs: &Self) -> (r: Self) {
        Gf7 { v: (self.v % 7 + rhs.v % 7) % 7 }
    }

    fn mul(self, rhs: &Self) -> (r: Self) {
        let a = self.v % 7;
        let b = rhs.v % 7;
        proof {
            assert(a * b <= 36) by (nonlinear_arith)
                requires
                    a <= 6,
                    b <= 6,
            ;
        }
        Gf7 { v: a * b % 7 }
    }

    fn invert(&self) -> (r: Self) {
        let t = self.v % 7;
        if t == 1 {
            Gf7 { v: 1 }
        } else if t == 2 {
            Gf7 { v: 4 }
        } else if t == 3 {
            Gf7 { v: 5 }
        } else if t == 4 {
            Gf7 { v: 2 }
        } else if t == 5 {
            Gf7 { v: 3 }
        } else {
            proof {
                assert(t == 6);
            }
            Gf7 { v: 6 }
        }
    }

    fn is_zero(&self) -> (b: bool) {
        self.v % 7 == 0
    }

    fn eq_elem(&self, other: &Self) -> (b: bool) {
        self.v % 7 == other.v % 7
    }
}

} // verus!
