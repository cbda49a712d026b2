//! UUIDs as 128-bit integers: their text form, parsing, and fresh ids.

use vstd::prelude::*;

verus! {

/// The lower-case hexadecimal digit for a value below 16.
pub open spec fn hex_digit(v: u128) -> char {
    if v < 10 {
        (48 + v) as char
    } else {
        (87 + v) as char
    }
}

/// How many hyphens come before position `i` of the hyphenated form.
pub open spec fn hyphens_before(i: int) -> int {
    if i > 23 {
        4
    } else if i > 18 {
        3
    } else if i > 13 {
        2
    } else if i > 8 {
        1
    } else {
        0
    }
}

/// The hyphenated lower-case form `xxxxxxxx-xxxx-xxxx-xxxx-xxxxxxxxxxxx`:
/// the 32 hexadecimal digits of `id`, most significant first, with hyphens
/// at positions 8, 13, 18 and 23.
pub open spec fn uuid_text(id: u128) -> Seq<char> {
    Seq::new(
        36,
        |i: int|
            if i == 8 || i == 13 || i == 18 || i == 23 {
                '-'
            } else {
                hex_digit(((id >> ((4 * (31 - (i - hyphens_before(i)))) as u128)) & 15u128) as u128)
            },
    )
}

/// The id that `uuid::Uuid::parse_str` reads from `text`, when it accepts it.
pub uninterp spec fn uuid_parse(text: Seq<char>) -> Option<u128>;

/// Formats an id with `uuid::Uuid::to_string`, whose documented form is the
/// hyphenated lower-case one (`uuid_text`).
#[verifier::external_body]
pub(crate) fn uuid_to_string(id: u128) -> (s: String)
    ensures
        s@ == uuid_text(id),
{
    uuid::Uuid::from_u128(id).to_string()
}

/// Reads an id with `uuid::Uuid::parse_str`; the result is `uuid_parse` of the text.
#[verifier::external_body]
pub(crate) fn parse_uuid(text: &str) -> (r: Option<u128>)
    ensures
        r == uuid_parse(text@),
{
    match uuid::Uuid::parse_str(text) {
        Ok(u) => Some(u.as_u128()),
        Err(_) => None,
    }
}

/// A fresh random (version 4) id from `uuid::Uuid::new_v4`; nothing is promised of its value.
#[verifier::external_body]
pub(crate) fn new_uuid() -> u128 {
    uuid::Uuid::new_v4().as_u128()
}

} // verus!
