//! Identifiers. Messages, sessions and agents are identified by UUIDs, which
//! the library holds as their 128-bit values.

use vstd::prelude::*;

verus! {

/// The lower-case hexadecimal digit for `n` in `0..16`.
pub open spec fn hex_digit(n: int) -> char {
    if n < 10 {
        ('0' as int + n) as char
    } else {
        ('a' as int + n - 10) as char
    }
}

/// The `k`-th hexadecimal digit of `id`, counted from the most significant.
pub open spec fn hex_digit_at(id: u128, k: int) -> char {
    hex_digit(((id >> ((4 * (31 - k)) as u128)) & 0xf) as int)
}

/// The hyphenated lower-case text of a UUID: 32 hexadecimal digits in groups
/// of 8, 4, 4, 4 and 12.
pub open spec fn uuid_text(id: u128) -> Seq<char> {
    Seq::new(
        36,
        |i: int|
            if i == 8 || i == 13 || i == 18 || i == 23 {
                '-'
            } else if i < 8 {
                hex_digit_at(id, i)
            } else if i < 13 {
                hex_digit_at(id, i - 1)
            } else if i < 18 {
                hex_digit_at(id, i - 2)
            } else if i < 23 {
                hex_digit_at(id, i - 3)
            } else {
                hex_digit_at(id, i - 4)
            },
    )
}

/// What `Uuid::parse_str` makes of a text: the value of the UUID it reads, in
/// any of the forms that crate accepts, or nothing.
pub uninterp spec fn parsed_uuid(text: Seq<char>) -> Option<u128>;

/// `Uuid::to_string` on the UUID with value `id`: its hyphenated lower-case
/// form.
#[verifier::external_body]
pub(crate) fn uuid_to_string(id: u128) -> (text: String)
    ensures
        text@ == uuid_text(id),
{
    uuid::Uuid::from_u128(id).to_string()
}

/// `Uuid::parse_str`: the value of the UUID that `text` spells, if it spells
/// one.
#[verifier::external_body]
pub(crate) fn parse_uuid(text: &str) -> (id: Option<u128>)
    ensures
        id == parsed_uuid(text@),
{
    match uuid::Uuid::parse_str(text) {
        Ok(id) => Some(id.as_u128()),
        Err(_) => None,
    }
}

/// `id` has the version and variant bits of a random UUID: version 4, and
/// the variant of RFC 9562.
pub open spec fn is_random_uuid(id: u128) -> bool {
    id & 0xf000_c000_0000_0000_0000 == 0x4000_8000_0000_0000_0000
}

/// `Uuid::new_v4`: a random UUID. Only its version and variant bits are
/// known.
#[verifier::external_body]
pub(crate) fn random_uuid() -> (id: u128)
    ensures
        is_random_uuid(id),
{
    uuid::Uuid::new_v4().as_u128()
}

} // verus!
