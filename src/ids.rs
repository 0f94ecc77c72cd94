use vstd::prelude::*;
use vstd::arithmetic::power::pow;

verus! {

/// The error of `uuid::Uuid::parse_str`, carried through opaquely.
#[verifier::external_type_specification]
#[verifier::external_body]
pub struct ExUuidError(uuid::Error);

/// The 128-bit value that `uuid` reads from a text, or `None` where it is no UUID.
pub uninterp spec fn parsed_uuid(text: Seq<char>) -> Option<u128>;

pub open spec fn hex_digits() -> Seq<char> {
    seq!['0', '1', '2', '3', '4', '5', '6', '7', '8', '9', 'a', 'b', 'c', 'd', 'e', 'f']
}

/// Hex digit `k` of `id`, counting from the most significant of its 32.
pub open spec fn hex_digit(id: u128, k: int) -> char {
    hex_digits()[((id as int) / pow(16, (31 - k) as nat)) % 16]
}

/// Which of the 32 hex digits stands at position `p` of the hyphenated text.
pub open spec fn digit_at(p: int) -> int {
    if p < 8 {
        p
    } else if p < 13 {
        p - 1
    } else if p < 18 {
        p - 2
    } else if p < 23 {
        p - 3
    } else {
        p - 4
    }
}

/// The canonical text of a UUID: its 32 hex digits in lower case, most
/// significant first, with hyphens after the 8th, 12th, 16th and 20th.
pub open spec fn uuid_text(id: u128) -> Seq<char> {
    Seq::new(
        36,
        |p: int|
            if p == 8 || p == 13 || p == 18 || p == 23 {
                '-'
            } else {
                hex_digit(id, digit_at(p))
            },
    )
}

/// Relies on `uuid::Uuid::parse_str`: it accepts a UUID in one of its text
/// forms (simple, hyphenated, urn, braced) and fails otherwise; the result
/// depends on the text alone.
#[verifier::external_body]
pub(crate) fn parse_uuid(text: &str) -> (r: Result<u128, uuid::Error>)
    ensures
        r is Ok <==> parsed_uuid(text@) is Some,
        r matches Ok(v) ==> parsed_uuid(text@) == Some(v),
{
    uuid::Uuid::parse_str(text).map(|u| u.as_u128())
}

/// Relies on the `Display` impl of `uuid::Uuid`, which writes the
/// lower-case hyphenated form (`fmt.rs`: `Display` → `LowerHex` →
/// `Hyphenated`); `from_u128` takes the value big-endian.
#[verifier::external_body]
pub(crate) fn uuid_to_string(id: u128) -> (r: String)
    ensures
        r@ == uuid_text(id),
{
    uuid::Uuid::from_u128(id).to_string()
}

} // verus!
