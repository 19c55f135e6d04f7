use vstd::prelude::*;
use crate::numeric::{
    fixed_text, fixed_text_value, has_eight_fraction_digits, integer_text_value,
    lemma_fixed_text_round_trip, lemma_padded_text, padded_text, parse_fixed, parse_integer,
    FIXED_LIMIT,
};

verus! {

/// A field as read from an upstream payload, before decoding.
#[derive(Clone, Debug, PartialEq, Eq)]
pub enum RawField {
    /// The field is missing, null, or neither text nor a number.
    Absent,
    /// The field is a JSON string.
    Text(String),
    /// The field is a JSON number, kept as its literal text.
    Number(String),
}

/// What an integer field decodes to: the integer its text spells, else 0.
pub open spec fn decoded_integer(f: RawField) -> int {
    match f {
        RawField::Absent => 0,
        RawField::Text(s) => match integer_text_value(s@) {
            Some(v) => v,
            None => 0,
        },
        RawField::Number(s) => match integer_text_value(s@) {
            Some(v) => v,
            None => 0,
        },
    }
}

/// What a decimal field decodes to: the fixed-point value its text spells,
/// else 0.
pub open spec fn decoded_fixed(f: RawField) -> int {
    match f {
        RawField::Absent => 0,
        RawField::Text(s) => match fixed_text_value(s@) {
            Some(v) => v,
            None => 0,
        },
        RawField::Number(s) => match fixed_text_value(s@) {
            Some(v) => v,
            None => 0,
        },
    }
}

/// Decodes an integer field; an absent or unreadable field decodes to 0.
pub fn decode_integer(f: &RawField) -> (r: i64)
    ensures
        r as int == decoded_integer(*f),
{
    match f {
        RawField::Absent => 0,
        RawField::Text(s) | RawField::Number(s) => match parse_integer(s.as_str()) {
            Some(v) => v,
            None => 0,
        },
    }
}

/// Decodes a decimal field into a fixed-point value with eight fractional
/// digits; an absent or unreadable field decodes to 0.
pub fn decode_fixed(f: &RawField) -> (r: i128)
    ensures
        r as int == decoded_fixed(*f),
{
    match f {
        RawField::Absent => 0,
        RawField::Text(s) | RawField::Number(s) => match parse_fixed(s.as_str()) {
            Some(v) => v,
            None => 0,
        },
    }
}

/// Every fixed-point rendering ends in a `.` and exactly eight digits.
pub proof fn lemma_fixed_text_eight_digits(v: int)
    ensures
        has_eight_fraction_digits(fixed_text(v)),
{
    let a = if v < 0 { (-v) as nat } else { v as nat };
    lemma_padded_text(a % 100_000_000, 8);
    let t = fixed_text(v);
    let p = padded_text(a % 100_000_000, 8);
    assert(t.subrange(t.len() - 8, t.len() as int) =~= p);
}

/// A number that arrives as text decodes, and is rendered, exactly as the
/// same number arriving as a JSON numeric literal; the rendering of a
/// decimal field always carries eight fractional digits.
pub proof fn lemma_tolerant_decode_equivalence(s: String)
    ensures
        decoded_integer(RawField::Text(s)) == decoded_integer(RawField::Number(s)),
        decoded_fixed(RawField::Text(s)) == decoded_fixed(RawField::Number(s)),
        fixed_text(decoded_fixed(RawField::Text(s))) == fixed_text(
            decoded_fixed(RawField::Number(s)),
        ),
        has_eight_fraction_digits(fixed_text(decoded_fixed(RawField::Text(s)))),
{
    lemma_fixed_text_eight_digits(decoded_fixed(RawField::Text(s)));
}

/// A value written with eight fractional digits decodes back to itself,
/// whether the text arrives as a JSON string or as a numeric literal.
pub proof fn lemma_canonical_decimal_decodes(s: String, v: int)
    requires
        -FIXED_LIMIT <= v <= FIXED_LIMIT,
        s@ == fixed_text(v),
    ensures
        decoded_fixed(RawField::Text(s)) == v,
        decoded_fixed(RawField::Number(s)) == v,
{
    lemma_fixed_text_round_trip(v);
}

} // verus!
