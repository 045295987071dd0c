//! Errors reported by this library.

use vstd::prelude::*;
use vstd::string::StringExecFns;

verus! {

/// The four classes of failure, without the text that an [`Error`] carries.
#[derive(Debug, Clone, Copy, PartialEq, Eq, Structural)]
pub enum ErrorKind {
    /// An internal invariant was violated.
    Fatal,
    /// A native value and a tree node do not map onto each other.
    FailConvert,
    /// The byte source ended before the item did.
    IOError,
    /// The bytes are not a well-formed item, or nesting is too deep.
    FailCbor,
}

/// Error variants that can be returned by this library.
///
/// Each variant carries a prefix, which names the place that failed, and a
/// message.
#[derive(Debug)]
pub enum Error {
    Fatal(String, String),
    FailConvert(String, String),
    IOError(String, String),
    FailCbor(String, String),
}

impl Error {
    /// The class of this error.
    pub open spec fn kind(&self) -> ErrorKind {
        match self {
            Error::Fatal(_, _) => ErrorKind::Fatal,
            Error::FailConvert(_, _) => ErrorKind::FailConvert,
            Error::IOError(_, _) => ErrorKind::IOError,
            Error::FailCbor(_, _) => ErrorKind::FailCbor,
        }
    }

    /// The place that this error names.
    pub open spec fn prefix(&self) -> Seq<char> {
        match self {
            Error::Fatal(p, _) => p@,
            Error::FailConvert(p, _) => p@,
            Error::IOError(p, _) => p@,
            Error::FailCbor(p, _) => p@,
        }
    }

    /// The message of this error.
    pub open spec fn message(&self) -> Seq<char> {
        match self {
            Error::Fatal(_, m) => m@,
            Error::FailConvert(_, m) => m@,
            Error::IOError(_, m) => m@,
            Error::FailCbor(_, m) => m@,
        }
    }

    /// The word that stands for a class in the rendered text.
    pub open spec fn kind_text(kind: ErrorKind) -> Seq<char> {
        match kind {
            ErrorKind::Fatal => " Fatal: "@,
            ErrorKind::FailConvert => " FailConvert: "@,
            ErrorKind::IOError => " IOError: "@,
            ErrorKind::FailCbor => " FailCbor: "@,
        }
    }

    /// Build an error of class `kind` at `prefix` with message `msg`.
    pub fn new(kind: ErrorKind, prefix: &str, msg: &str) -> (e: Error)
        ensures
            e.kind() == kind,
            e.prefix() == prefix@,
            e.message() == msg@,
    {
        let p = String::from_str(prefix);
        let m = String::from_str(msg);
        match kind {
            ErrorKind::Fatal => Error::Fatal(p, m),
            ErrorKind::FailConvert => Error::FailConvert(p, m),
            ErrorKind::IOError => Error::IOError(p, m),
            ErrorKind::FailCbor => Error::FailCbor(p, m),
        }
    }

    /// The class of this error.
    pub fn to_kind(&self) -> (k: ErrorKind)
        ensures
            k == self.kind(),
    {
        match self {
            Error::Fatal(_, _) => ErrorKind::Fatal,
            Error::FailConvert(_, _) => ErrorKind::FailConvert,
            Error::IOError(_, _) => ErrorKind::IOError,
            Error::FailCbor(_, _) => ErrorKind::FailCbor,
        }
    }

    /// Render the error as `<prefix> <Class>: <message>`.
    pub fn to_string(&self) -> (s: String)
        ensures
            s@ == self.prefix() + Self::kind_text(self.kind()) + self.message(),
    {
        match self {
            Error::Fatal(p, m) => p.clone().concat(" Fatal: ").concat(m.as_str()),
            Error::FailConvert(p, m) => p.clone().concat(" FailConvert: ").concat(m.as_str()),
            Error::IOError(p, m) => p.clone().concat(" IOError: ").concat(m.as_str()),
            Error::FailCbor(p, m) => p.clone().concat(" FailCbor: ").concat(m.as_str()),
        }
    }
}

} // verus!
