//! The closed set of failures a session or a decoder can report.

use vstd::prelude::*;

verus! {

/// `std::io::Error`, carried through as an opaque value.
#[verifier::external_type_specification]
#[verifier::external_body]
pub struct ExIoError(std::io::Error);

/// Everything that can go wrong between a query and its columns.
#[derive(Debug)]
pub enum PgToPlError {
    /// Reading, writing or framing bytes failed.
    Io(std::io::Error),
    /// An array payload announced more than one dimension.
    OnlyOneDimensionArraySupported,
    /// An array payload ended before the bytes that it announced.
    NotEnoughBytes,
    /// The Bind message could not be built.
    BindError,
    /// A data row held fewer fields (first number) than there are column
    /// builders (second number).
    TooFewField(usize, usize),
    /// A data row held more fields than there are column builders (the
    /// number).
    TooManyField(usize),
    /// The server answered a ping with an error.
    PingFailed(String),
    /// A read returned no bytes.
    ConnectionClosed,
    /// The pool could not hand out a session.
    PoolError(String),
    /// The parameter types differ from those the statement was prepared
    /// with.
    ParamTypeMismatch,
    /// The server answered a query with an error.
    QueryError(String),
}

/// A result whose failure is a `PgToPlError`.
pub type PgToPlResult<T> = Result<T, PgToPlError>;

} // verus!
