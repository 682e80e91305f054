//! Identifiers: the 128-bit values of UUIDs, drawn and printed by the `uuid` crate.

use vstd::prelude::*;

verus! {

/// The numeric value of a UUID (big-endian, as `uuid::Uuid::as_u128` gives it).
pub type Uuid = u128;

/// The lower-case hexadecimal digit for `d` (0 <= d < 16).
pub open spec fn hex_digit(d: int) -> char {
    if d < 10 {
        ((48 + d) as u8) as char
    } else {
        ((87 + d) as u8) as char
    }
}

/// The `i`-th hexadecimal digit of `x`, most significant first (0 <= i < 32).
pub open spec fn nibble(x: u128, i: int) -> int {
    ((x as int) / (vstd::arithmetic::power2::pow2((4 * (31 - i)) as nat) as int)) % 16
}

/// How many hyphens stand before position `p` of the hyphenated form.
pub open spec fn hyphens_before(p: int) -> int {
    if p < 8 {
        0
    } else if p < 13 {
        1
    } else if p < 18 {
        2
    } else if p < 23 {
        3
    } else {
        4
    }
}

/// The hyphenated lower-case form of a UUID: 32 hexadecimal digits in groups
/// of 8-4-4-4-12, such as `550e8400-e29b-41d4-a716-446655440000`.
pub open spec fn uuid_text(x: u128) -> Seq<char> {
    Seq::new(
        36,
        |p: int|
            if p == 8 || p == 13 || p == 18 || p == 23 {
                '-'
            } else {
                hex_digit(nibble(x, p - hyphens_before(p)))
            },
    )
}

/// A value that `uuid::Uuid::parse_str` accepts for a text; what it accepts
/// (hyphenated, simple, braced and URN forms) is the `uuid` crate's.
pub uninterp spec fn uuid_parse(text: Seq<char>) -> Option<u128>;

/// Calls `uuid::Uuid::new_v4` and returns the value of the random version-4
/// UUID. Nothing is claimed of the value: it is random.
#[verifier::external_body]
pub(crate) fn random_uuid() -> (id: Uuid) {
    ::uuid::Uuid::new_v4().as_u128()
}

/// Calls `Display` of `uuid::Uuid` (through `to_string`) on `uuid::Uuid::from_u128(x)`.
/// Claimed: the text is the hyphenated lower-case form, as the `uuid`
/// crate documents for `Display` (it writes `LowerHex`, the hyphenated form).
#[verifier::external_body]
pub(crate) fn uuid_string(x: Uuid) -> (s: String)
    ensures
        s@ == uuid_text(x),
{
    ::uuid::Uuid::from_u128(x).to_string()
}

/// Calls `uuid::Uuid::parse_str` and returns the value of the parsed UUID.
/// Claimed: the result is `Ok` exactly when the crate accepts the text, and
/// then holds the value `uuid_parse` names; the error's message (the crate's
/// `Display` of its error) is not described.
#[verifier::external_body]
pub(crate) fn parse_uuid(s: &str) -> (r: Result<Uuid, String>)
    ensures
        r is Ok <==> uuid_parse(s@) is Some,
        r matches Ok(v) ==> uuid_parse(s@) == Some(v),
{
    match ::uuid::Uuid::parse_str(s) {
        Ok(u) => Ok(u.as_u128()),
        Err(e) => Err(e.to_string()),
    }
}

} // verus!
