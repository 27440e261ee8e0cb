use field_num::field::FieldElement;
use field_num::gf7::Gf7;
use field_num::ops;
use field_num::radix::{parse, ParseError};

fn gf(v: u64) -> Gf7 {
    Gf7::from_u64(v)
}

fn to_base(v: u64, radix: u32) -> String {
    const ALPHABET: &[u8] = b"0123456789abcdefghijklmnopqrstuvwxyz";
    if v == 0 {
        return "0".to_string();
    }
    let mut digits = Vec::new();
    let mut rest = v;
    while rest > 0 {
        digits.push(ALPHABET[(rest % radix as u64) as usize] as char);
        rest /= radix as u64;
    }
    digits.iter().rev().collect()
}

#[test]
fn parse_inverts_rendering_for_many_values() {
    for radix in [2u32, 7, 10, 16, 36] {
        for v in 0..300u64 {
            let s = to_base(v, radix);
            let f = parse::<Gf7>(&s, radix).unwrap();
            assert!(f.eq_elem(&gf(v % 7)));
        }
    }
}

#[test]
fn parse_round_trips_decimal() {
    // 26 in base 10; 26 mod 7 == 5
    let f = parse::<Gf7>("26", 10).unwrap();
    assert!(f.eq_elem(&gf(5)));
}

#[test]
fn parse_round_trips_binary() {
    // 1101 in base 2 is 13; 13 mod 7 == 6
    let f = parse::<Gf7>("1101", 2).unwrap();
    assert!(f.eq_elem(&gf(6)));
}

#[test]
fn parse_round_trips_base_36() {
    // "z" is 35; 35 mod 7 == 0.  "10" in base 36 is 36; 36 mod 7 == 1.
    let f = parse::<Gf7>("z", 36).unwrap();
    assert!(ops::is_zero(&f));
    let g = parse::<Gf7>("10", 36).unwrap();
    assert!(ops::is_one(&g));
}

#[test]
fn parse_upper_and_lower_case_digits_agree() {
    let a = parse::<Gf7>("1A", 16).unwrap();
    let b = parse::<Gf7>("1a", 16).unwrap();
    // 0x1a == 26; 26 mod 7 == 5
    assert!(a.eq_elem(&gf(5)));
    assert!(a.eq_elem(&b));
}

#[test]
fn parse_value_exceeding_modulus_is_reduced() {
    // 100 mod 7 == 2
    let f = parse::<Gf7>("100", 10).unwrap();
    assert!(f.eq_elem(&gf(2)));
}

#[test]
fn parse_empty_fails_for_every_radix() {
    for r in 2..=36u32 {
        assert_eq!(parse::<Gf7>("", r).unwrap_err(), ParseError::EmptyInput);
    }
}

#[test]
fn parse_lone_zero_is_the_additive_identity_for_every_radix() {
    for r in 2..=36u32 {
        let f = parse::<Gf7>("0", r).unwrap();
        assert!(ops::is_zero(&f));
    }
}

#[test]
fn parse_leading_zero_fails_for_every_radix() {
    for r in 2..=36u32 {
        assert_eq!(parse::<Gf7>("01", r).unwrap_err(), ParseError::LeadingZero);
    }
}

#[test]
fn parse_invalid_digit_fails() {
    assert_eq!(parse::<Gf7>("1G", 16).unwrap_err(), ParseError::InvalidDigit);
    assert_eq!(parse::<Gf7>("G", 16).unwrap_err(), ParseError::InvalidDigit);
    assert_eq!(parse::<Gf7>("2", 2).unwrap_err(), ParseError::InvalidDigit);
    assert_eq!(parse::<Gf7>("1 2", 10).unwrap_err(), ParseError::InvalidDigit);
}

#[test]
fn parse_invalid_digit_wins_over_later_errors_only() {
    // the first character is checked first: a zero first digit is reported
    // before a later invalid character is reached
    assert_eq!(parse::<Gf7>("0G", 16).unwrap_err(), ParseError::LeadingZero);
    // but an invalid first character is an invalid digit, not a leading zero
    assert_eq!(parse::<Gf7>("G0", 16).unwrap_err(), ParseError::InvalidDigit);
}

#[test]
fn identities_behave() {
    let z: Gf7 = ops::zero();
    let o: Gf7 = ops::one();
    assert!(ops::is_zero(&z));
    assert!(ops::is_one(&o));
    assert!(!ops::is_zero(&o));
    assert!(!ops::is_one(&z));
}

#[test]
fn divide_is_exact_for_all_nonzero_pairs() {
    for x in 1..7u64 {
        for y in 1..7u64 {
            let q = ops::divide(gf(x), &gf(y));
            let back = q.mul(&gf(y));
            assert!(back.eq_elem(&gf(x)));
        }
    }
}

#[test]
fn divide_concrete_quotient() {
    // 3 / 2 == 3 * 4 == 12 mod 7 == 5, since 2 * 4 == 8 == 1 mod 7
    let q = ops::divide(gf(3), &gf(2));
    assert!(q.eq_elem(&gf(5)));
    let q2 = ops::divide_owned(gf(3), gf(2));
    assert!(q2.eq_elem(&gf(5)));
}

#[test]
fn remainder_of_nonzero_dividend_is_zero() {
    for x in 1..7u64 {
        for y in 0..7u64 {
            let r = ops::remainder(gf(x), gf(y));
            assert!(ops::is_zero(&r));
            let r2 = ops::remainder_ref(gf(x), &gf(y));
            assert!(ops::is_zero(&r2));
        }
    }
}

#[test]
fn mul_add_matches_formula() {
    // 2 * 3 + 4 == 10 mod 7 == 3
    let r = ops::mul_add(gf(2), gf(3), gf(4));
    assert!(r.eq_elem(&gf(3)));
}

#[test]
fn mul_add_forms_agree_on_all_inputs() {
    for x in 0..7u64 {
        for a in 0..7u64 {
            for b in 0..7u64 {
                let owned = ops::mul_add(gf(x), gf(a), gf(b));
                let borrowed = ops::mul_add_ref(gf(x), &gf(a), &gf(b));
                assert!(owned.eq_elem(&borrowed));
                let expect = (x * a + b) % 7;
                assert!(owned.eq_elem(&gf(expect)));
            }
        }
    }
}

#[test]
fn field_operations_reduce_unreduced_words() {
    // an element may carry any representative word; operations reduce it
    let big = Gf7 { v: 700 + 3 };
    assert!(big.eq_elem(&gf(3)));
    let sum = big.add(&gf(5));
    assert!(sum.eq_elem(&gf(1)));
    let neg = big.neg();
    assert!(neg.eq_elem(&gf(4)));
}
