//! Server identifiers and their text form.

use vstd::arithmetic::power::pow;
use vstd::prelude::*;

verus! {

/// A server's identity: an opaque 128-bit value assigned in the configuration.
pub type ServerId = u128;

/// Length of the canonical text form of an identifier.
pub const ID_TEXT_LEN: usize = 36;

/// The lowercase hexadecimal digit for a value below sixteen.
pub open spec fn hex_digit(n: int) -> char
    recommends
        0 <= n < 16,
{
    seq!['0', '1', '2', '3', '4', '5', '6', '7', '8', '9', 'a', 'b', 'c', 'd', 'e', 'f'][n]
}

/// The `k`-th of the 32 hexadecimal digits of `id`, most significant first.
pub open spec fn nibble(id: ServerId, k: int) -> int
    recommends
        0 <= k < 32,
{
    (id as int / pow(16, (31 - k) as nat)) % 16
}

/// Whether position `i` of the canonical text form holds a hyphen.
pub open spec fn is_hyphen_position(i: int) -> bool {
    i == 8 || i == 13 || i == 18 || i == 23
}

/// Number of hyphens that stand before position `i` of the canonical text form.
pub open spec fn hyphens_before(i: int) -> int {
    if i < 8 {
        0
    } else if i < 13 {
        1
    } else if i < 18 {
        2
    } else if i < 23 {
        3
    } else {
        4
    }
}

/// The canonical text form of an identifier: its 32 lowercase hexadecimal
/// digits, most significant first, in groups of 8, 4, 4, 4 and 12 digits that
/// are separated by hyphens.
pub open spec fn id_text(id: ServerId) -> Seq<char> {
    Seq::new(
        36,
        |i: int|
            if is_hyphen_position(i) {
                '-'
            } else {
                hex_digit(nibble(id, i - hyphens_before(i)))
            },
    )
}

/// The identifier that the `uuid` crate reads from a text, or `None` where it
/// rejects the text.
pub uninterp spec fn uuid_parse(text: Seq<char>) -> Option<ServerId>;

/// Calls `uuid::Uuid::parse_str` and hands back the parsed value as a 128-bit
/// integer (`Uuid::as_u128`, the sixteen bytes read most significant first).
/// Trusted: the outcome depends on the characters of the text alone, so it is
/// given the name `uuid_parse`; nothing more is claimed of it.
#[verifier::external_body]
pub(crate) fn parse_uuid(text: &str) -> (r: Option<ServerId>)
    ensures
        r == uuid_parse(text@),
{
    match uuid::Uuid::parse_str(text) {
        Ok(parsed) => Some(parsed.as_u128()),
        Err(_) => None,
    }
}

/// Calls `uuid::Uuid::from_u128` and formats the value with the crate's
/// `Display` impl.  Trusted: that impl writes the hyphenated lowercase form,
/// which `id_text` spells out digit by digit.
#[verifier::external_body]
pub(crate) fn format_uuid(id: ServerId) -> (r: String)
    ensures
        r@ == id_text(id),
{
    uuid::Uuid::from_u128(id).to_string()
}

/// Reads an identifier from its text form.
pub fn parse_id(text: &str) -> (r: Option<ServerId>)
    ensures
        r == uuid_parse(text@),
{
    parse_uuid(text)
}

/// Writes an identifier in its canonical text form.
pub fn format_id(id: ServerId) -> (r: String)
    ensures
        r@ == id_text(id),
        r@.len() == ID_TEXT_LEN,
{
    format_uuid(id)
}

} // verus!
