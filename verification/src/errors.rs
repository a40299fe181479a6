//! Errors of the runtime that hosts generated code.

use vstd::prelude::*;

verus! {

/// The error of `String::from_utf8`, which the library carries and never
/// looks into.
#[verifier::external_type_specification]
#[verifier::external_body]
pub struct ExFromUtf8Error(std::string::FromUtf8Error);

/// The error of `std::str::from_utf8`, which the library carries and never
/// looks into.
#[verifier::external_type_specification]
#[verifier::external_body]
pub struct ExUtf8Error(std::str::Utf8Error);

/// What went wrong.
#[derive(Debug)]
pub enum ErrorKind {
    /// Bytes that were to be a string are not UTF-8
    UTF8(std::string::FromUtf8Error),
    /// Bytes that were to be a string slice are not UTF-8
    UTF8Str(std::str::Utf8Error),
    /// The host reported an error
    HostError(String),
    /// An operation was dispatched that is not there
    BadDispatch(String),
}

/// An error, which is of one of the kinds of [`ErrorKind`].
#[derive(Debug)]
pub struct Error(pub Box<ErrorKind>);

/// The error of the kind `kind`.
pub fn new(kind: ErrorKind) -> (r: Error)
    ensures
        *r.0 == kind,
{
    Error(Box::new(kind))
}

/// The text that describes errors of a kind.
pub open spec fn kind_description(kind: ErrorKind) -> Seq<char> {
    match kind {
        ErrorKind::UTF8(_) => "UTF8 encoding failure"@,
        ErrorKind::UTF8Str(_) => "UTF8 encoding failure"@,
        ErrorKind::HostError(_) => "Host Error"@,
        ErrorKind::BadDispatch(_) => "Bad dispatch"@,
    }
}

impl Error {
    /// The kind of the error.
    pub fn kind(&self) -> (r: &ErrorKind)
        ensures
            *r == *self.0,
    {
        &*self.0
    }

    /// The kind of the error, which ends the error.
    pub fn into_kind(self) -> (r: ErrorKind)
        ensures
            r == *self.0,
    {
        *self.0
    }

    /// The text that describes errors of this kind.
    pub fn description(&self) -> (r: &'static str)
        ensures
            r@ == kind_description(*self.0),
    {
        match &*self.0 {
            ErrorKind::UTF8(_) => "UTF8 encoding failure",
            ErrorKind::UTF8Str(_) => "UTF8 encoding failure",
            ErrorKind::HostError(_) => "Host Error",
            ErrorKind::BadDispatch(_) => "Bad dispatch",
        }
    }
}

} // verus!
