//! Error taxonomy of the relay.
//!
//! A publisher-side error terminates that publisher alone; a
//! subscriber-side error terminates that subscriber alone; none is fatal
//! to the process.

use vstd::prelude::*;

verus! {

/// Errors of the relay and of the server around it.
#[derive(Debug, Clone)]
pub enum Error {
    /// A connection read or write failed.
    Io(String),
    /// A network-level failure.
    Network(String),
    /// The byte stream violates the container protocol: a bad magic
    /// marker or an inconsistent declared size.
    Protocol(String),
    /// A stream-registry operation failed.
    Stream(String),
    /// A configuration value is unusable.
    Config(String),
    /// An input value is unusable.
    InvalidInput(String),
    /// A resource limit was exceeded.
    ResourceLimit(String),
    /// An internal failure.
    Internal(String),
}

impl Error {
    /// The text carried by the error, whichever variant holds it.
    pub fn message(&self) -> (m: &String)
        ensures
            m@ == self.spec_message(),
    {
        match self {
            Error::Io(s) => s,
            Error::Network(s) => s,
            Error::Protocol(s) => s,
            Error::Stream(s) => s,
            Error::Config(s) => s,
            Error::InvalidInput(s) => s,
            Error::ResourceLimit(s) => s,
            Error::Internal(s) => s,
        }
    }

    /// The text carried by the error.
    pub open spec fn spec_message(&self) -> Seq<char> {
        match self {
            Error::Io(s) => s@,
            Error::Network(s) => s@,
            Error::Protocol(s) => s@,
            Error::Stream(s) => s@,
            Error::Config(s) => s@,
            Error::InvalidInput(s) => s@,
            Error::ResourceLimit(s) => s@,
            Error::Internal(s) => s@,
        }
    }

    /// Whether this is a protocol error.
    pub open spec fn is_protocol(&self) -> bool {
        matches!(self, Error::Protocol(_))
    }
}

impl From<String> for Error {
    /// A bare string becomes an internal error.
    fn from(s: String) -> (r: Error) {
        Error::Internal(s)
    }
}

impl vstd::std_specs::convert::FromSpecImpl<String> for Error {
    open spec fn obeys_from_spec() -> bool {
        true
    }

    open spec fn from_spec(s: String) -> Error {
        Error::Internal(s)
    }
}

/// A result whose error is the relay's.
pub type StreamResult<T> = Result<T, Error>;

} // verus!
