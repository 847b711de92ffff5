use vstd::prelude::*;

verus! {

/// The ways in which parsing or building a cookie can fail.
#[derive(Debug, Clone, Copy, PartialEq, Eq, Structural)]
pub enum ErrorKind {
    InvalidName,
    InvalidValue,
    InvalidPath,
    InvalidDomain,
    TooLong,
}

/// Error type when failing to parse or build a cookie.
#[derive(Debug, Clone, Copy, PartialEq, Eq, Structural)]
pub struct Error {
    kind: ErrorKind,
}

impl View for Error {
    type V = ErrorKind;

    closed spec fn view(&self) -> ErrorKind {
        self.kind
    }
}

impl Error {
    pub fn invalid_name() -> (e: Error)
        ensures
            e@ == ErrorKind::InvalidName,
    {
        Error { kind: ErrorKind::InvalidName }
    }

    pub fn invalid_value() -> (e: Error)
        ensures
            e@ == ErrorKind::InvalidValue,
    {
        Error { kind: ErrorKind::InvalidValue }
    }

    pub fn invalid_path() -> (e: Error)
        ensures
            e@ == ErrorKind::InvalidPath,
    {
        Error { kind: ErrorKind::InvalidPath }
    }

    pub fn invalid_domain() -> (e: Error)
        ensures
            e@ == ErrorKind::InvalidDomain,
    {
        Error { kind: ErrorKind::InvalidDomain }
    }

    pub fn too_long() -> (e: Error)
        ensures
            e@ == ErrorKind::TooLong,
    {
        Error { kind: ErrorKind::TooLong }
    }

    /// The kind of failure.
    pub fn kind(&self) -> (k: ErrorKind)
        ensures
            k == self@,
    {
        self.kind
    }

    /// A fixed human-readable message for this error.
    pub fn message(&self) -> (m: &'static str)
        ensures
            m@ == error_message(self@),
    {
        match self.kind {
            ErrorKind::InvalidName => "cookie name contains invalid character",
            ErrorKind::InvalidValue => "cookie value contains invalid character",
            ErrorKind::InvalidPath => "cookie path is invalid",
            ErrorKind::InvalidDomain => "cookie domain is invalid",
            ErrorKind::TooLong => "cookie string is too long",
        }
    }
}

/// The message that goes with each kind of error.
pub open spec fn error_message(k: ErrorKind) -> Seq<char> {
    match k {
        ErrorKind::InvalidName => "cookie name contains invalid character"@,
        ErrorKind::InvalidValue => "cookie value contains invalid character"@,
        ErrorKind::InvalidPath => "cookie path is invalid"@,
        ErrorKind::InvalidDomain => "cookie domain is invalid"@,
        ErrorKind::TooLong => "cookie string is too long"@,
    }
}

} // verus!
