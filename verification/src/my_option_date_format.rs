use vstd::prelude::*;
use vstd::string::StringExecFns;
use crate::error::Error;
use crate::models::Timestamp;
use crate::my_date_format::{timestamp_of, timestamp_text};
use crate::text::same_text;

verus! {

/// The text that stands for "no timestamp": the word `null`.
pub open spec fn absent_text() -> Seq<char> {
    seq!['n', 'u', 'l', 'l']
}

/// The text of an optional timestamp.
pub open spec fn optional_text(t: Option<Timestamp>) -> Seq<char> {
    match t {
        Some(x) => timestamp_text(x),
        None => absent_text(),
    }
}

/// The optional timestamp that a text writes: the word `null` is
/// recognised first, anything else is read by the pattern.
pub open spec fn optional_of(s: Seq<char>) -> Option<Option<Timestamp>> {
    if s == absent_text() {
        Some(None)
    } else {
        match timestamp_of(s) {
            Some(t) => Some(Some(t)),
            None => None,
        }
    }
}

/// What is written is read back as the same value, absent or present.
pub proof fn lemma_optional_round_trip(t: Option<Timestamp>)
    requires
        t is Some ==> t->Some_0.valid(),
    ensures
        optional_of(optional_text(t)) == Some(t),
{
    match t {
        Some(x) => {
            crate::my_date_format::lemma_text_round_trip(x);
            assert(timestamp_text(x).len() == 19);
            assert(absent_text().len() == 4);
        },
        None => {},
    }
}

/// Writes an optional timestamp: the pattern, or `null` for none.
pub fn serialize(date: &Option<Timestamp>) -> (r: String)
    requires
        *date is Some ==> date->Some_0.valid(),
    ensures
        r@ == optional_text(*date),
{
    match date {
        Some(t) => crate::my_date_format::serialize(t),
        None => {
            proof {
                reveal_strlit("null");
                assert("null"@ =~= absent_text());
            }
            String::from_str("null")
        },
    }
}

/// Reads an optional timestamp: `null` is none, anything else must follow
/// the pattern or is a `ParseError`.
pub fn deserialize(s: &str) -> (r: Result<Option<Timestamp>, Error>)
    ensures
        match r {
            Ok(t) => optional_of(s@) == Some(t),
            Err(e) => optional_of(s@) is None && e is ParseError,
        },
{
    proof {
        reveal_strlit("null");
        assert("null"@ =~= absent_text());
    }
    if same_text(s, "null") {
        Ok(None)
    } else {
        match crate::my_date_format::deserialize(s) {
            Ok(t) => Ok(Some(t)),
            Err(e) => Err(e),
        }
    }
}

} // verus!
