//! The typed failures a resolution attempt can surface.

use vstd::prelude::*;

verus! {

/// An error produced while attempting to resolve.
#[derive(Clone, Debug)]
pub enum Error {
    /// No or invalid IP address string found.
    Addr,
    /// An IP version that was not requested was returned. Reserved for callers
    /// that layer stricter version enforcement atop the engine.
    Version,
    /// DNS resolver error.
    Dns(crate::dns::Error),
    /// HTTP resolver error.
    Http(crate::http::Error),
    /// Other resolver error, wrapping a foreign failure's message.
    Other(String),
}

/// Mathematical image of `Error`.
pub ghost enum ErrorV {
    Addr,
    Version,
    Dns(crate::dns::ErrorV),
    Http(crate::http::ErrorV),
    Other(Seq<char>),
}

impl View for Error {
    type V = ErrorV;

    open spec fn view(&self) -> ErrorV {
        match self {
            Error::Addr => ErrorV::Addr,
            Error::Version => ErrorV::Version,
            Error::Dns(e) => ErrorV::Dns(e@),
            Error::Http(e) => ErrorV::Http(e@),
            Error::Other(m) => ErrorV::Other(m@),
        }
    }
}

impl Error {
    /// Construct an `Other` error from a foreign failure's message.
    pub fn new(message: String) -> (r: Error)
        ensures
            r@ == ErrorV::Other(message@),
    {
        Error::Other(message)
    }

    /// An equal copy.
    pub fn duplicate(&self) -> (r: Error)
        ensures
            r@ == self@,
    {
        match self {
            Error::Addr => Error::Addr,
            Error::Version => Error::Version,
            Error::Dns(e) => Error::Dns(e.duplicate()),
            Error::Http(e) => Error::Http(e.duplicate()),
            Error::Other(m) => Error::Other(m.clone()),
        }
    }
}

} // verus!
