use vstd::prelude::*;
use crate::error::Error;
use crate::ident::{hyphenated, parsed, read_id, write_id};

verus! {

/// The canonical text of an identifier.
pub fn serialize(id: u128) -> (r: String)
    ensures
        r@ == hyphenated(id),
        r@.len() == 36,
        parsed(r@) == Some(id),
{
    write_id(id)
}

/// The identifier that a text stands for; a `ParseError` where the text is
/// no identifier.
pub fn deserialize(s: &str) -> (r: Result<u128, Error>)
    ensures
        match r {
            Ok(id) => parsed(s@) == Some(id),
            Err(e) => parsed(s@) is None && e is ParseError,
        },
{
    match read_id(s) {
        Ok(id) => Ok(id),
        Err(cause) => Err(Error::ParseError(cause)),
    }
}

} // verus!
