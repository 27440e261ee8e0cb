//! The arithmetic half of the adapter: identity constructors and predicates,
//! division through inversion, the degenerate field remainder, and fused
//! multiply-add, each expressed purely over the field capability set.

use vstd::prelude::*;
use vstd::arithmetic::div_mod::{lemma_add_mod_noop, lemma_mul_mod_noop_general, lemma_small_mod};
use vstd::arithmetic::mul::lemma_mul_is_associative;
use crate::field::FieldElement;

verus! {

/// The additive identity of the field.
pub fn zero<F: FieldElement>() -> (r: F)
    ensures
        r.value() == 0,
{
    F::zero()
}

/// Whether `x` is the additive identity, decided by the field's own zero test.
pub fn is_zero<F: FieldElement>(x: &F) -> (b: bool)
    ensures
        b == (x.value() == 0),
{
    x.is_zero()
}

/// The multiplicative identity of the field.
pub fn one<F: FieldElement>() -> (r: F)
    ensures
        r.value() == 1int % F::modulus(),
{
    F::one()
}

/// Whether `x` is the multiplicative identity, decided by value equality.
pub fn is_one<F: FieldElement>(x: &F) -> (b: bool)
    ensures
        b == (x.value() == 1int % F::modulus()),
{
    let one_elem = F::one();
    x.eq_elem(&one_elem)
}

/// Division as multiplication by the divisor's inverse.
///
/// A zero divisor is a caller error, excluded here just as the field's own
/// inversion excludes it; the quotient is exact: multiplied back by the
/// divisor it restores the dividend.
pub fn divide<F: FieldElement>(x: F, y: &F) -> (r: F)
    requires
        y.value() != 0,
    ensures
        (r.value() * y.value()) % F::modulus() == x.value(),
{
    let inv = y.invert();
    let ghost p = F::modulus();
    let ghost xv = x.value();
    let ghost yv = y.value();
    let ghost iv = inv.value();
    let r = x.mul(&inv);
    proof {
        F::lemma_modulus();
        x.lemma_valid();
        // ((xv * iv) % p * yv) % p == (xv * iv * yv) % p
        lemma_mul_mod_noop_general(xv * iv, yv, p);
        lemma_mul_is_associative(xv, iv, yv);
        // (xv * ((iv * yv) % p)) % p == (xv * (iv * yv)) % p
        lemma_mul_mod_noop_general(xv, iv * yv, p);
        lemma_small_mod(1nat, p as nat);
        lemma_small_mod(xv as nat, p as nat);
    }
    r
}

/// `divide` for callers holding the divisor by value.
pub fn divide_owned<F: FieldElement>(x: F, y: F) -> (r: F)
    requires
        y.value() != 0,
    ensures
        (r.value() * y.value()) % F::modulus() == x.value(),
{
    divide(x, &y)
}

/// The remainder of exact field division.
///
/// Over a field every element is exactly divisible by every nonzero element,
/// so the remainder of a nonzero dividend is always the additive identity.
/// A zero dividend is the one combination this adapter treats as a caller
/// error, mirroring its division-by-zero convention, and is excluded here.
pub fn remainder<F: FieldElement>(x: F, y: F) -> (r: F)
    requires
        x.value() != 0,
    ensures
        r.value() == 0,
{
    F::zero()
}

/// `remainder` for callers holding the divisor by reference.
pub fn remainder_ref<F: FieldElement>(x: F, y: &F) -> (r: F)
    requires
        x.value() != 0,
    ensures
        r.value() == 0,
{
    F::zero()
}

/// Fused multiply-add: `x * a + b` in the field.
pub fn mul_add<F: FieldElement>(x: F, a: F, b: F) -> (r: F)
    ensures
        r.value() == (x.value() * a.value() + b.value()) % F::modulus(),
{
    let ghost p = F::modulus();
    let ghost xv = x.value();
    let ghost av = a.value();
    let ghost bv = b.value();
    let t = x.mul(&a);
    let r = t.add(&b);
    proof {
        F::lemma_modulus();
        b.lemma_valid();
        lemma_small_mod(bv as nat, p as nat);
        // ((xv * av) % p + bv % p) % p == (xv * av + bv) % p
        lemma_add_mod_noop(xv * av, bv, p);
    }
    r
}

/// Fused multiply-add over borrowed operands; same result as `mul_add` on the
/// same logical inputs.
pub fn mul_add_ref<F: FieldElement>(x: F, a: &F, b: &F) -> (r: F)
    ensures
        r.value() == (x.value() * a.value() + b.value()) % F::modulus(),
{
    let ghost p = F::modulus();
    let ghost xv = x.value();
    let ghost av = a.value();
    let ghost bv = b.value();
    let t = x.mul(a);
    let r = t.add(b);
    proof {
        F::lemma_modulus();
        b.lemma_valid();
        lemma_small_mod(bv as nat, p as nat);
        lemma_add_mod_noop(xv * av, bv, p);
    }
    r
}

/// Law: the identities are distinct.  Any element meeting `one`'s contract is
/// not the additive identity, because the field's modulus admits at least two
/// elements.
pub proof fn lemma_one_not_zero<F: FieldElement>(one_elem: F)
    requires
        one_elem.value() == 1int % F::modulus(),
    ensures
        one_elem.value() != 0,
{
    F::lemma_modulus();
    lemma_small_mod(1nat, F::modulus() as nat);
}

/// Law: division is exact.  Any quotient meeting `divide`'s contract,
/// multiplied back by the divisor under `mul`'s contract, restores the
/// dividend.
pub proof fn lemma_divide_exact<F: FieldElement>(x: F, y: F, q: F, back: F)
    requires
        y.value() != 0,
        (q.value() * y.value()) % F::modulus() == x.value(),
        back.value() == (q.value() * y.value()) % F::modulus(),
    ensures
        back.value() == x.value(),
{
}

/// Law: the owned- and borrowed-operand fused multiply-add forms agree.  Any
/// two results meeting the contracts of `mul_add` and `mul_add_ref` on the
/// same logical inputs are the same field element.
pub proof fn lemma_mul_add_forms_agree<F: FieldElement>(x: F, a: F, b: F, r1: F, r2: F)
    requires
        r1.value() == (x.value() * a.value() + b.value()) % F::modulus(),
        r2.value() == (x.value() * a.value() + b.value()) % F::modulus(),
    ensures
        r1.value() == r2.value(),
{
}

} // verus!
