//! The capability set a field element type must supply to the adapter.

use vstd::prelude::*;

verus! {

/// Arithmetic capabilities of a finite-field element type.
///
/// A value of an implementing type denotes a residue class modulo the field's
/// modulus; `value` gives the canonical representative in `[0, modulus)` and
/// every operation is specified over those representatives.  The adapter's
/// parsing and arithmetic operations are written against this trait alone.
pub trait FieldElement: Sized {
    /// The field's modulus, as a mathematical integer.
    spec fn modulus() -> int;

    /// The canonical representative of this element in `[0, modulus())`.
    spec fn value(&self) -> int;

    /// The modulus admits at least the two identity elements.
    proof fn lemma_modulus()
        ensures
            Self::modulus() >= 2,
    ;

    /// Every element's representative lies in `[0, modulus())`.
    proof fn lemma_valid(&self)
        ensures
            0 <= self.value() < Self::modulus(),
    ;

    /// The additive identity.
    fn zero() -> (r: Self)
        ensures
            r.value() == 0,
    ;

    /// The multiplicative identity.
    fn one() -> (r: Self)
        ensures
            r.value() == 1int % Self::modulus(),
    ;

    /// Embedding of a small non-negative integer into the field.
    fn from_u64(v: u64) -> (r: Self)
        ensures
            r.value() == v as int % Self::modulus(),
    ;

    /// Field addition.
    fn add(self, rhs: &Self) -> (r: Self)
        ensures
            r.value() == (self.value() + rhs.value()) % Self::modulus(),
    ;

    /// Field multiplication.
    fn mul(self, rhs: &Self) -> (r: Self)
        ensures
            r.value() == (self.value() * rhs.value()) % Self::modulus(),
    ;

    /// Multiplicative inverse; undefined on the additive identity.
    fn invert(&self) -> (r: Self)
        requires
            self.value() != 0,
        ensures
            (r.value() * self.value()) % Self::modulus() == 1int % Self::modulus(),
    ;

    /// Test against the additive identity.
    fn is_zero(&self) -> (b: bool)
        ensures
            b == (self.value() == 0),
    ;

    /// Value equality: two elements are equal exactly when they denote the
    /// same residue class.
    fn eq_elem(&self, other: &Self) -> (b: bool)
        ensures
            b == (self.value() == other.value()),
    ;
}

} // verus!
