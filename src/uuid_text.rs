//! The textual forms of a 128-bit identifier, and the `uuid` crate's
//! formatter and parser for them.

use vstd::prelude::*;
use crate::hex::{all_hex, hex_value, lower_hex_text};

verus! {

#[verifier::external_type_specification]
#[verifier::external_body]
pub struct ExUuidError(uuid::Error);

/// Relies on the derived `Clone` of `uuid::Error`: a copy of the same error.
pub assume_specification[ <uuid::Error as Clone>::clone ](e: &uuid::Error) -> (r: uuid::Error)
    ensures
        r == *e,
;

/// `urn:uuid:`, the prefix of the URN form.
pub open spec fn urn_prefix() -> Seq<char> {
    seq!['u', 'r', 'n', ':', 'u', 'u', 'i', 'd', ':']
}

/// The simple form: 32 hexadecimal digits.
pub open spec fn is_simple_form(s: Seq<char>) -> bool {
    s.len() == 32 && all_hex(s)
}

/// The digits of a hyphenated form, hyphens left out.
pub open spec fn hyphenated_digits(s: Seq<char>) -> Seq<char> {
    s.subrange(0, 8) + s.subrange(9, 13) + s.subrange(14, 18) + s.subrange(19, 23) + s.subrange(
        24,
        36,
    )
}

/// The hyphenated form: groups of 8, 4, 4, 4 and 12 hexadecimal digits
/// separated by `-`.
pub open spec fn is_hyphenated_form(s: Seq<char>) -> bool {
    &&& s.len() == 36
    &&& s[8] == '-' && s[13] == '-' && s[18] == '-' && s[23] == '-'
    &&& all_hex(hyphenated_digits(s))
}

/// The URN form: `urn:uuid:` and then a hyphenated form.
pub open spec fn is_urn_form(s: Seq<char>) -> bool {
    s.len() == 45 && s.subrange(0, 9) == urn_prefix() && is_hyphenated_form(s.subrange(9, 45))
}

/// The 32 digits of a text in one of the accepted forms, or `None` when the
/// text is in none of them.
pub open spec fn identifier_digits(s: Seq<char>) -> Option<Seq<char>> {
    if is_simple_form(s) {
        Some(s)
    } else if is_hyphenated_form(s) {
        Some(hyphenated_digits(s))
    } else if is_urn_form(s) {
        Some(hyphenated_digits(s.subrange(9, 45)))
    } else {
        None
    }
}

/// The identifier that a text denotes: the number its 32 digits spell.
pub open spec fn identifier_of_text(s: Seq<char>) -> Option<nat> {
    match identifier_digits(s) {
        Some(d) => Some(hex_value(d)),
        None => None,
    }
}

/// Relies on `uuid::Uuid::parse_str`: it accepts exactly the simple,
/// hyphenated and URN forms (digits in either case) and stores the 32 digits
/// as big-endian bytes, which `Uuid::as_u128` reads back as one number.
#[verifier::external_body]
pub(crate) fn parse_identifier(s: &str) -> (r: Result<u128, uuid::Error>)
    ensures
        r is Ok <==> identifier_of_text(s@) is Some,
        r is Ok ==> Some(r->Ok_0 as nat) == identifier_of_text(s@),
{
    match uuid::Uuid::parse_str(s) {
        Ok(u) => Ok(u.as_u128()),
        Err(e) => Err(e),
    }
}

/// Relies on `uuid::adapter::Simple::encode_lower`: the 32 lowercase
/// hexadecimal digits of the value that `Uuid::from_u128` stores, most
/// significant first.
#[verifier::external_body]
pub(crate) fn simple_lower(v: u128) -> (r: String)
    ensures
        r@ == lower_hex_text(v as nat, 32),
{
    let mut buf = uuid::Uuid::encode_buffer();
    uuid::Uuid::from_u128(v).to_simple().encode_lower(&mut buf).to_string()
}

}
