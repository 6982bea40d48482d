//! Exact decimal numbers.
//!
//! Sensor responses carry plain decimal literals such as `14.50` or `1.0`
//! (firmware versions, temperature readings). The crate keeps them exact:
//! a value is a sign, an integer mantissa, and a power-of-ten scale, so
//! `14.50` is `mantissa 1450, scale 2`. The accepted grammar is an optional
//! sign, then digits with at most one decimal point and at least one digit;
//! exponents and non-finite forms are not part of the wire protocol.

use vstd::prelude::*;
use vstd::slice::slice_subrange;
use vstd::slice::slice_to_vec;

use crate::bytes::all_digits;
use crate::bytes::digits_value;
use crate::bytes::first_index_of;
use crate::bytes::lemma_first_index_of_is;
use crate::bytes::lemma_first_index_of_none;
use crate::bytes::parse_u64_digits;

verus! {

/// A signed fixed-point decimal: the represented value is
/// `(-1)^negative * mantissa / 10^scale`.
#[derive(Clone, Copy, Debug, PartialEq, Eq, Structural)]
pub struct Decimal {
    pub negative: bool,
    pub mantissa: u64,
    pub scale: u32,
}

impl Decimal {
    /// The decimal zero, used where an unparsable field defaults to 0.
    pub fn zero() -> (r: Decimal)
        ensures
            r == Decimal::spec_zero(),
    {
        Decimal { negative: false, mantissa: 0, scale: 0 }
    }

    pub open spec fn spec_zero() -> Decimal {
        Decimal { negative: false, mantissa: 0, scale: 0 }
    }
}

/// The literal with its optional leading sign removed.
pub open spec fn literal_body(s: Seq<u8>) -> Seq<u8> {
    if s.len() > 0 && (s[0] == 43 || s[0] == 45) {
        s.drop_first()
    } else {
        s
    }
}

/// Does the literal carry a leading minus sign?
pub open spec fn literal_negative(s: Seq<u8>) -> bool {
    s.len() > 0 && s[0] == 45
}

/// Digits before the decimal point (the whole body when there is none).
pub open spec fn int_digits(body: Seq<u8>) -> Seq<u8> {
    let d = first_index_of(body, 46);
    if d == -1 {
        body
    } else {
        body.subrange(0, d)
    }
}

/// Digits after the decimal point (empty when there is none).
pub open spec fn frac_digits(body: Seq<u8>) -> Seq<u8> {
    let d = first_index_of(body, 46);
    if d == -1 {
        Seq::empty()
    } else {
        body.subrange(d + 1, body.len() as int)
    }
}

/// All mantissa digits of the literal, decimal point elided.
pub open spec fn literal_digits(s: Seq<u8>) -> Seq<u8> {
    int_digits(literal_body(s)) + frac_digits(literal_body(s))
}

/// Number of fractional digits of the literal.
pub open spec fn literal_scale(s: Seq<u8>) -> nat {
    frac_digits(literal_body(s)).len()
}

/// Is `s` a decimal literal: optional sign, digits, at most one decimal
/// point, at least one digit in all?
pub open spec fn is_decimal_literal(s: Seq<u8>) -> bool {
    let body = literal_body(s);
    all_digits(int_digits(body)) && all_digits(frac_digits(body)) && literal_digits(s).len() > 0
}

/// Do mantissa and scale of the literal fit the representation?
pub open spec fn literal_fits(s: Seq<u8>) -> bool {
    digits_value(literal_digits(s)) <= u64::MAX && literal_scale(s) <= u32::MAX
}

/// The `Decimal` a well-formed, fitting literal denotes.
pub open spec fn decimal_of_literal(s: Seq<u8>) -> Decimal {
    Decimal {
        negative: literal_negative(s),
        mantissa: digits_value(literal_digits(s)) as u64,
        scale: literal_scale(s) as u32,
    }
}

/// Parse a decimal literal. Returns `None` exactly when the bytes are not
/// a decimal literal or its mantissa or scale does not fit.
pub fn parse_decimal(s: &[u8]) -> (r: Option<Decimal>)
    ensures
        r is Some <==> is_decimal_literal(s@) && literal_fits(s@),
        r matches Some(d) ==> d == decimal_of_literal(s@),
{
    let ghost gs = s@;
    let (negative, start): (bool, usize) = if s.len() > 0 && (s[0] == 43 || s[0] == 45) {
        (s[0] == 45, 1)
    } else {
        (false, 0)
    };
    let body = slice_subrange(s, start, s.len());
    proof {
        assert(body@ =~= literal_body(gs));
        assert(negative == literal_negative(gs));
    }
    let dot = crate::bytes::find_byte_from(body, 0, 46);
    let (int_part, frac_part): (&[u8], &[u8]) = match dot {
        Some(d) => {
            proof {
                lemma_first_index_of_is(body@, 46, d as int);
            }
            (slice_subrange(body, 0, d), slice_subrange(body, d + 1, body.len()))
        },
        None => {
            proof {
                lemma_first_index_of_none(body@, 46);
            }
            (body, slice_subrange(body, body.len(), body.len()))
        },
    };
    proof {
        assert(int_part@ =~= int_digits(literal_body(gs)));
        assert(frac_part@ =~= frac_digits(literal_body(gs)));
    }
    let mut digits: Vec<u8> = slice_to_vec(int_part);
    digits.extend_from_slice(frac_part);
    proof {
        assert(digits@ =~= literal_digits(gs));
    }
    if (frac_part.len() as u64) > (u32::MAX as u64) {
        proof {
            assert(!literal_fits(gs));
        }
        return None;
    }
    match parse_u64_digits(digits.as_slice()) {
        Some(mantissa) => {
            proof {
                assert(all_digits(digits@));
                assert forall|i: int| 0 <= i < int_part@.len() implies crate::bytes::is_ascii_digit(
                    #[trigger] int_part@[i],
                ) by {
                    assert(digits@[i] == int_part@[i]);
                }
                assert forall|i: int|
                    0 <= i < frac_part@.len() implies crate::bytes::is_ascii_digit(
                    #[trigger] frac_part@[i],
                ) by {
                    assert(digits@[int_part@.len() + i] == frac_part@[i]);
                }
            }
            Some(Decimal { negative, mantissa, scale: frac_part.len() as u32 })
        },
        None => {
            proof {
                if is_decimal_literal(gs) {
                    assert(digits@.len() > 0);
                    assert(digits_value(digits@) > u64::MAX);
                }
            }
            None
        },
    }
}

} // verus!
