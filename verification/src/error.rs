use vstd::prelude::*;
use vstd::string::StringExecFns;

verus! {

/// A failure of the persistence layer.
#[derive(Clone, Debug, PartialEq, Eq)]
pub enum Error {
    /// A write was rejected: the insert did not add exactly one row.
    DatabaseError(String),
    /// A failure that the backing store itself reported.
    SqlError(String),
    /// Text that is no identifier or no timestamp.
    ParseError(String),
}

impl Error {
    /// The cause that the error carries.
    pub open spec fn cause(self) -> Seq<char> {
        match self {
            Error::DatabaseError(m) => m@,
            Error::SqlError(m) => m@,
            Error::ParseError(m) => m@,
        }
    }

    /// The heading under which an error of this class is shown.
    pub open spec fn heading(self) -> Seq<char> {
        match self {
            Error::DatabaseError(_) => "Database error: "@,
            Error::SqlError(_) => "SQL error: "@,
            Error::ParseError(_) => "Parse error: "@,
        }
    }

    /// The readable form: the heading of the class, then the cause.
    pub fn message(&self) -> (r: String)
        ensures
            r@ == self.heading() + self.cause(),
    {
        match self {
            Error::DatabaseError(m) => String::from_str("Database error: ").concat(m.as_str()),
            Error::SqlError(m) => String::from_str("SQL error: ").concat(m.as_str()),
            Error::ParseError(m) => String::from_str("Parse error: ").concat(m.as_str()),
        }
    }
}

} // verus!
