//! What can go wrong on a transport.
use vstd::prelude::*;

verus! {

/// The kinds of transport failure that the session tells apart.
#[derive(Debug, Clone, Copy, PartialEq, Eq, Structural)]
pub enum ErrorKind {
    WouldBlock,
    TimedOut,
    UnexpectedEof,
    ConnectionRefused,
    ConnectionReset,
    ConnectionAborted,
    Other,
}

impl ErrorKind {
    /// The read gave nothing before its deadline.
    pub open spec fn spec_is_timeout(self) -> bool {
        self == ErrorKind::WouldBlock || self == ErrorKind::TimedOut
    }

    /// The connection is gone.
    pub open spec fn spec_is_connection_lost(self) -> bool {
        ||| self == ErrorKind::UnexpectedEof
        ||| self == ErrorKind::ConnectionRefused
        ||| self == ErrorKind::ConnectionReset
        ||| self == ErrorKind::ConnectionAborted
    }

    pub fn is_timeout(&self) -> (timeout: bool)
        ensures
            timeout == self.spec_is_timeout(),
    {
        match self {
            ErrorKind::WouldBlock | ErrorKind::TimedOut => true,
            _ => false,
        }
    }

    pub fn is_connection_lost(&self) -> (lost: bool)
        ensures
            lost == self.spec_is_connection_lost(),
    {
        match self {
            ErrorKind::UnexpectedEof
            | ErrorKind::ConnectionRefused
            | ErrorKind::ConnectionReset
            | ErrorKind::ConnectionAborted => true,
            _ => false,
        }
    }
}

/// A failure to open or use a transport.
#[derive(Debug, Clone, Copy, PartialEq, Eq, Structural)]
pub enum Error {
    Io(ErrorKind),
    DomainRequired,
    Other,
}

pub type Result<T> = core::result::Result<T, Error>;

impl Error {
    pub open spec fn spec_description(self) -> Seq<char> {
        match self {
            Error::Io(_) => "IO error"@,
            Error::DomainRequired =>
                "A domain for a host is required in order to establish an SSL connection"@,
            Error::Other => "Other error"@,
        }
    }

    pub fn description(&self) -> (text: &'static str)
        ensures
            text@ == self.spec_description(),
    {
        match self {
            Error::Io(_) => "IO error",
            Error::DomainRequired =>
                "A domain for a host is required in order to establish an SSL connection",
            Error::Other => "Other error",
        }
    }
}

} // verus!
