//! Errors surfaced by record decoding, plans, and migration runs.

use vstd::prelude::*;

verus! {

/// Why an operation on records or tables failed. Every fallible operation of
/// the library reports one of these; none panics on data-shape problems.
#[derive(Debug)]
pub enum Error {
    /// A value was present but had the wrong shape or was out of range for
    /// the field that asked for it; the payload names the field or cause.
    FieldConversion(String),
    /// A field declared by the record was absent from a row's field map; the
    /// payload names the field.
    MissingField(String),
    /// An update or delete was attempted on a record with no field marked as
    /// primary key.
    MissingPrimaryKey,
    /// The storage backend failed; the payload describes the failing
    /// operation.
    Backend(String),
    /// A row read from a table could not be decoded; the payload describes
    /// the malformed part.
    RowDecode(String),
}

impl Error {
    /// A human-readable description of the failure.
    pub fn describe(&self) -> (r: String)
        ensures
            r@ == (match *self {
                Error::FieldConversion(s) => "field conversion: "@ + s@,
                Error::MissingField(s) => "missing field "@ + s@,
                Error::MissingPrimaryKey => "missing primary key"@,
                Error::Backend(s) => "backend: "@ + s@,
                Error::RowDecode(s) => "row decode: "@ + s@,
            }),
    {
        match self {
            Error::FieldConversion(s) => join_strings("field conversion: ", s),
            Error::MissingField(s) => join_strings("missing field ", s),
            Error::MissingPrimaryKey => string_from("missing primary key"),
            Error::Backend(s) => join_strings("backend: ", s),
            Error::RowDecode(s) => join_strings("row decode: ", s),
        }
    }
}

impl Clone for Error {
    fn clone(&self) -> (r: Self)
    {
        match self {
            Error::FieldConversion(s) => Error::FieldConversion(s.clone()),
            Error::MissingField(s) => Error::MissingField(s.clone()),
            Error::MissingPrimaryKey => Error::MissingPrimaryKey,
            Error::Backend(s) => Error::Backend(s.clone()),
            Error::RowDecode(s) => Error::RowDecode(s.clone()),
        }
    }
}

/// Builds an owned string from a literal.
pub fn string_from(s: &str) -> (r: String)
    ensures
        r@ == s@,
{
    String::from_str(s)
}

/// Concatenates a prefix and a suffix into a fresh string.
pub fn join_strings(prefix: &str, suffix: &String) -> (r: String)
    ensures
        r@ == prefix@ + suffix@,
{
    let mut out = String::from_str(prefix);
    out.append(suffix.as_str());
    out
}

} // verus!
