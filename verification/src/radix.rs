//! Radix string parsing: a numeral in any base from 2 to 36 becomes a field
//! element by Horner's method, using only field multiplication and addition,
//! with exact classification of malformed inputs.

use vstd::prelude::*;
use vstd::arithmetic::div_mod::{
    lemma_add_mod_noop, lemma_div_decreases, lemma_div_pos_is_pos, lemma_fundamental_div_mod,
    lemma_mul_mod_noop_general, lemma_small_mod,
};
use crate::field::FieldElement;

verus! {

/// How a numeral string can be malformed.
#[derive(Clone, Copy, Debug, PartialEq, Eq)]
pub enum ParseError {
    /// The numeral has zero length.
    EmptyInput,
    /// A character does not map to a digit under the given radix.
    InvalidDigit,
    /// A numeral of more than one character begins with a zero digit.
    LeadingZero,
}

/// The digit value a character denotes, radix aside: `'0'..='9'` map to
/// 0 through 9, `'a'..='z'` and `'A'..='Z'` map to 10 through 35, and any
/// other character maps to 36, which no radix in range admits.
pub open spec fn digit_val(c: char) -> int {
    if '0' as u32 <= c as u32 && c as u32 <= '9' as u32 {
        c as u32 - '0' as u32
    } else if 'a' as u32 <= c as u32 && c as u32 <= 'z' as u32 {
        c as u32 - 'a' as u32 + 10
    } else if 'A' as u32 <= c as u32 && c as u32 <= 'Z' as u32 {
        c as u32 - 'A' as u32 + 10
    } else {
        36
    }
}

/// Whether `c` is a valid digit under `radix`.
pub open spec fn is_digit(c: char, radix: u32) -> bool {
    digit_val(c) < radix
}

/// The integer a digit string denotes in base `radix`, by Horner's rule.
pub open spec fn numeral(s: Seq<char>, radix: u32) -> int
    decreases s.len(),
{
    if s.len() == 0 {
        0
    } else {
        numeral(s.drop_last(), radix) * radix + digit_val(s.last())
    }
}

/// The classification a numeral string receives under `radix`: `None` when it
/// parses, otherwise the error reported.  The single character `"0"` is
/// accepted outright; every other string is scanned left to right, failing on
/// the first character that is no digit, except that a valid zero first digit
/// of a longer numeral fails as a leading zero before the rest is examined.
pub open spec fn classify(s: Seq<char>, radix: u32) -> Option<ParseError> {
    if s.len() == 0 {
        Some(ParseError::EmptyInput)
    } else if s.len() == 1 && s[0] == '0' {
        None
    } else if !is_digit(s[0], radix) {
        Some(ParseError::InvalidDigit)
    } else if digit_val(s[0]) == 0 {
        Some(ParseError::LeadingZero)
    } else if exists|i: int| 0 <= i < s.len() && !is_digit(#[trigger] s[i], radix) {
        Some(ParseError::InvalidDigit)
    } else {
        None
    }
}

/// Maps one character to its digit value under `radix`, or reports that it
/// has none.
fn digit_of(c: char, radix: u32) -> (r: Option<u32>)
    requires
        2 <= radix <= 36,
    ensures
        r matches Some(d) ==> is_digit(c, radix) && d == digit_val(c),
        r is None ==> !is_digit(c, radix),
{
    let cu = c as u32;
    let v: u32 = if '0' as u32 <= cu && cu <= '9' as u32 {
        cu - '0' as u32
    } else if 'a' as u32 <= cu && cu <= 'z' as u32 {
        cu - 'a' as u32 + 10
    } else if 'A' as u32 <= cu && cu <= 'Z' as u32 {
        cu - 'A' as u32 + 10
    } else {
        36
    };
    if v < radix {
        Some(v)
    } else {
        None
    }
}

/// Parses a numeral in base `radix` into a field element.
///
/// The string is consumed left to right: each digit multiplies the
/// accumulator by the radix and is then added in, so the result is the
/// numeral's value reduced modulo the field's modulus even when the numeral
/// exceeds it.  An empty string, a string with a character outside the digit
/// alphabet of `radix`, and a multi-character string beginning with a zero
/// digit are rejected with the matching [`ParseError`]; every other string is
/// accepted.
pub fn parse<F: FieldElement>(s: &str, radix: u32) -> (r: Result<F, ParseError>)
    requires
        2 <= radix <= 36,
    ensures
        r matches Ok(f) ==> classify(s@, radix) is None && f.value() == numeral(s@, radix)
            % F::modulus(),
        r matches Err(e) ==> classify(s@, radix) == Some(e),
{
    proof {
        F::lemma_modulus();
    }
    let n = s.unicode_len();
    if n == 0 {
        return Err(ParseError::EmptyInput);
    }
    if n == 1 {
        let c0 = s.get_char(0);
        if c0 == '0' {
            let z = F::zero();
            proof {
                assert(s@ =~= seq!['0']);
                assert(s@.drop_last() =~= Seq::<char>::empty());
                assert(numeral(Seq::<char>::empty(), radix) == 0);
                assert(digit_val('0') == 0);
                lemma_small_mod(0nat, F::modulus() as nat);
            }
            return Ok(z);
        }
    }
    let mut acc = F::zero();
    let radix_elem = F::from_u64(radix as u64);
    let ghost p = F::modulus();
    proof {
        assert(s@.subrange(0, 0).len() == 0);
        assert(numeral(s@.subrange(0, 0), radix) == 0);
        lemma_small_mod(0nat, p as nat);
    }
    let mut i: usize = 0;
    while i < n
        invariant
            2 <= radix <= 36,
            p == F::modulus(),
            p >= 2,
            n == s@.len(),
            0 < n,
            i <= n,
            n == 1 ==> s@[0] != '0',
            forall|j: int| 0 <= j < i ==> is_digit(#[trigger] s@[j], radix),
            i > 0 ==> digit_val(s@[0]) != 0,
            radix_elem.value() == radix as int % p,
            acc.value() == numeral(s@.subrange(0, i as int), radix) % p,
        decreases n - i,
    {
        let c = s.get_char(i);
        match digit_of(c, radix) {
            None => {
                return Err(ParseError::InvalidDigit);
            },
            Some(d) => {
                if i == 0 && d == 0 {
                    return Err(ParseError::LeadingZero);
                }
                let ghost pre = s@.subrange(0, i as int);
                let ghost nv = numeral(pre, radix);
                let dig_elem = F::from_u64(d as u64);
                acc = acc.mul(&radix_elem);
                acc = acc.add(&dig_elem);
                proof {
                    let post = s@.subrange(0, i as int + 1);
                    assert(post.drop_last() =~= pre);
                    assert(post.last() == s@[i as int]);
                    // ((nv % p) * (radix % p)) % p == (nv * radix) % p
                    lemma_mul_mod_noop_general(nv, radix as int, p);
                    // ((nv * radix) % p + (d % p)) % p == (nv * radix + d) % p
                    lemma_add_mod_noop(nv * radix, d as int, p);
                }
                i = i + 1;
            },
        }
    }
    proof {
        assert(s@.subrange(0, n as int) =~= s@);
    }
    Ok(acc)
}

/// The canonical character for a digit value: `0..=9` render as `'0'..='9'`,
/// `10..=35` as `'a'..='z'`.
pub open spec fn digit_char(d: int) -> char {
    if 0 <= d < 10 {
        ((d + '0' as u32) as u32) as char
    } else {
        ((d - 10 + 'a' as u32) as u32) as char
    }
}

/// The canonical base-`radix` rendering of a non-negative integer, most
/// significant digit first, `"0"` for zero.
pub open spec fn rendered(v: nat, radix: u32) -> Seq<char>
    decreases v,
    when radix >= 2
    via rendered_decreases
{
    if v < radix {
        seq![digit_char(v as int)]
    } else {
        rendered(v / radix as nat, radix).push(digit_char((v % radix as nat) as int))
    }
}

#[via_fn]
proof fn rendered_decreases(v: nat, radix: u32) {
    if v >= radix {
        lemma_div_decreases(v as int, radix as int);
    }
}

proof fn lemma_digit_char_val(d: int)
    requires
        0 <= d < 36,
    ensures
        digit_val(digit_char(d)) == d,
        (digit_char(d) == '0') == (d == 0),
{
}

/// Law: the empty numeral is rejected as empty input under every radix, so by
/// `parse`'s contract, `parse` returns that error on the empty string.
pub proof fn lemma_empty_rejected(radix: u32)
    ensures
        classify(Seq::<char>::empty(), radix) == Some(ParseError::EmptyInput),
{
}

/// Law: the lone zero digit is accepted under every radix and denotes zero,
/// so by `parse`'s contract, `parse` maps it to the additive identity.
pub proof fn lemma_lone_zero_accepted(radix: u32)
    ensures
        classify(seq!['0'], radix) is None,
        numeral(seq!['0'], radix) == 0,
{
    assert(seq!['0'].drop_last() =~= Seq::<char>::empty());
    assert(numeral(Seq::<char>::empty(), radix) == 0);
}

/// Law: a numeral of more than one character whose first character is the
/// zero digit is rejected as a leading zero under every valid radix, whatever
/// follows it.
pub proof fn lemma_leading_zero_rejected(s: Seq<char>, radix: u32)
    requires
        2 <= radix <= 36,
        s.len() >= 2,
        s[0] == '0',
    ensures
        classify(s, radix) == Some(ParseError::LeadingZero),
{
}

/// Law: a numeral containing a character that is no digit under the radix is
/// rejected as an invalid digit — except when its first character is the zero
/// digit of a longer numeral, which the scan reports as a leading zero before
/// reaching any later character.
pub proof fn lemma_invalid_digit_rejected(s: Seq<char>, radix: u32)
    requires
        2 <= radix <= 36,
        s.len() > 0,
        exists|i: int| 0 <= i < s.len() && !is_digit(#[trigger] s[i], radix),
        !(s.len() >= 2 && is_digit(s[0], radix) && digit_val(s[0]) == 0),
    ensures
        classify(s, radix) == Some(ParseError::InvalidDigit),
{
}

/// Law: rendering round-trips through parsing.  The canonical base-`radix`
/// rendering of any non-negative integer is classified as well formed and
/// denotes that integer, so by `parse`'s contract, parsing it yields the
/// integer's residue in the field.
pub proof fn lemma_rendered_parses(v: nat, radix: u32)
    requires
        2 <= radix <= 36,
    ensures
        rendered(v, radix).len() > 0,
        forall|i: int|
            0 <= i < rendered(v, radix).len() ==> is_digit(
                #[trigger] rendered(v, radix)[i],
                radix,
            ),
        v > 0 ==> digit_val(rendered(v, radix)[0]) != 0,
        numeral(rendered(v, radix), radix) == v,
        classify(rendered(v, radix), radix) is None,
    decreases v,
{
    if v < radix {
        lemma_digit_char_val(v as int);
        assert(rendered(v, radix) =~= seq![digit_char(v as int)]);
        assert(rendered(v, radix).drop_last() =~= Seq::<char>::empty());
        assert(numeral(Seq::<char>::empty(), radix) == 0);
        assert(digit_val(rendered(v, radix)[0]) == v);
    } else {
        lemma_div_pos_is_pos(v as int, radix as int);
        lemma_div_decreases(v as int, radix as int);
        lemma_rendered_parses(v / radix as nat, radix);
        lemma_fundamental_div_mod(v as int, radix as int);
        lemma_digit_char_val((v % radix as nat) as int);
        let s0 = rendered(v / radix as nat, radix);
        let c = digit_char((v % radix as nat) as int);
        assert(rendered(v, radix) =~= s0.push(c));
        assert(s0.push(c).drop_last() =~= s0);
        assert(s0.push(c).last() == c);
        assert(numeral(s0.push(c), radix) == numeral(s0, radix) * radix + digit_val(c));
        assert(digit_val(c) == (v % radix as nat) as int);
        assert(v as int == (v as int / radix as int) * radix + (v as int % radix as int));
        assert(rendered(v, radix)[0] == s0[0]);
        assert(forall|i: int|
            0 <= i < s0.push(c).len() ==> is_digit(#[trigger] s0.push(c)[i], radix));
    }
}

} // verus!
