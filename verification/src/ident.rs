use vstd::prelude::*;
use vstd::arithmetic::power::pow;

verus! {

/// The character of a hexadecimal digit, in lower case.
pub open spec fn hex_char(n: int) -> char {
    if n == 0 {
        '0'
    } else if n == 1 {
        '1'
    } else if n == 2 {
        '2'
    } else if n == 3 {
        '3'
    } else if n == 4 {
        '4'
    } else if n == 5 {
        '5'
    } else if n == 6 {
        '6'
    } else if n == 7 {
        '7'
    } else if n == 8 {
        '8'
    } else if n == 9 {
        '9'
    } else if n == 10 {
        'a'
    } else if n == 11 {
        'b'
    } else if n == 12 {
        'c'
    } else if n == 13 {
        'd'
    } else if n == 14 {
        'e'
    } else {
        'f'
    }
}

/// The `k`-th of the 32 hexadecimal digits of an identifier, counted from
/// the most significant.
pub open spec fn hex_digit(id: u128, k: int) -> int {
    (id as int / pow(16, (31 - k) as nat)) % 16
}

/// The character at position `i` of an identifier's text: hyphens after the
/// 8th, 12th, 16th and 20th digit, the digits in between.
pub open spec fn id_char(id: u128, i: int) -> char {
    if i == 8 || i == 13 || i == 18 || i == 23 {
        '-'
    } else if i < 8 {
        hex_char(hex_digit(id, i))
    } else if i < 13 {
        hex_char(hex_digit(id, i - 1))
    } else if i < 18 {
        hex_char(hex_digit(id, i - 2))
    } else if i < 23 {
        hex_char(hex_digit(id, i - 3))
    } else {
        hex_char(hex_digit(id, i - 4))
    }
}

/// The canonical text of an identifier: 36 characters, 32 lower-case
/// hexadecimal digits in groups of 8, 4, 4, 4 and 12 with hyphens between.
pub open spec fn hyphenated(id: u128) -> Seq<char> {
    Seq::new(36, |i: int| id_char(id, i))
}

/// The value of the identifier that `uuid` reads from `text`, where it reads one.
pub uninterp spec fn parsed(text: Seq<char>) -> Option<u128>;

/// `Uuid::new_v4`, as a number: a random identifier. Nothing is claimed of
/// the value.
#[verifier::external_body]
pub(crate) fn fresh_id() -> (id: u128) {
    uuid::Uuid::new_v4().as_u128()
}

/// `Uuid`'s `to_string` on `Uuid::from_u128(id)`: the lower-case hyphenated
/// form of the value taken big-endian, which `Uuid::parse_str` reads back as
/// the same identifier.
#[verifier::external_body]
pub(crate) fn write_id(id: u128) -> (r: String)
    ensures
        r@ == hyphenated(id),
        parsed(r@) == Some(id),
{
    uuid::Uuid::from_u128(id).to_string()
}

/// `Uuid::parse_str`: the identifier that the text stands for, or, where it
/// stands for none, the parser's own words for its error (`uuid::Error`'s
/// `to_string`), of which nothing is claimed.
#[verifier::external_body]
pub(crate) fn read_id(s: &str) -> (r: Result<u128, String>)
    ensures
        match r {
            Ok(id) => parsed(s@) == Some(id),
            Err(_) => parsed(s@) is None,
        },
{
    match uuid::Uuid::parse_str(s) {
        Ok(u) => Ok(u.as_u128()),
        Err(e) => Err(e.to_string()),
    }
}

} // verus!
