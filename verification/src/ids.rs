//! Giveaway identifiers: 128-bit random tokens with a hyphenated text
//! form, generated, parsed and rendered by the `uuid` crate.

use vstd::prelude::*;

verus! {

/// What `uuid`'s text parser yields on a character sequence: the id
/// when the text is hexadecimal digits with optional hyphens in an
/// accepted layout, nothing otherwise.
pub uninterp spec fn parsed_uuid(s: Seq<char>) -> Option<u128>;

/// The hyphenated text form of an id, as `uuid` renders it.
pub uninterp spec fn uuid_text(id: u128) -> Seq<char>;

/// A character that can occur in the hyphenated text form: a lowercase
/// hexadecimal digit or a hyphen.
pub open spec fn is_uuid_char(c: char) -> bool {
    ('0' <= c && c <= '9') || ('a' <= c && c <= 'f') || c == '-'
}

/// Relies on uuid::Uuid::new_v4: a fresh version-4 identifier drawn
/// from the operating system's random source. Nothing is promised of
/// its value.
#[verifier::external_body]
pub fn fresh_uuid() -> u128 {
    uuid::Uuid::new_v4().as_u128()
}

/// Relies on uuid::Uuid::parse_str: parses hexadecimal digits with
/// optional hyphens; the result is a function of the characters alone.
#[verifier::external_body]
pub fn parse_uuid_chars(v: &[char]) -> (r: Option<u128>)
    ensures
        r == parsed_uuid(v@),
{
    let s: String = v.iter().collect();
    uuid::Uuid::parse_str(&s).ok().map(|u| u.as_u128())
}

/// Relies on uuid::Uuid's display form (reached through from_u128): 36
/// characters, lowercase hexadecimal digits and hyphens, and parse_str
/// accepts that form and yields the same id back.
#[verifier::external_body]
pub fn uuid_to_string(id: u128) -> (r: String)
    ensures
        r@ == uuid_text(id),
        r@.len() == 36,
        forall|i: int| 0 <= i < r@.len() ==> is_uuid_char(#[trigger] r@[i]),
        parsed_uuid(r@) == Some(id),
{
    uuid::Uuid::from_u128(id).to_string()
}

} // verus!
