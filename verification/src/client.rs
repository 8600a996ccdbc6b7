//! Errors a command client can meet.

use vstd::prelude::*;

verus! {

/// `std::io::Error`: an operating system or I/O error, carried through.
#[verifier::external_type_specification]
#[verifier::external_body]
pub struct ExIoError(std::io::Error);

/// Why a command got no reply.
#[derive(Debug)]
pub enum ClientError {
    /// No reply arrived in time.
    Timeout,
    /// The server cannot be reached.
    Connection(std::io::Error),
    /// Anything else, such as a reply that is not valid JSON.
    Other(anyhow::Error),
}

impl From<std::io::Error> for ClientError {
    fn from(e: std::io::Error) -> (r: ClientError) {
        ClientError::Connection(e)
    }
}

impl vstd::std_specs::convert::FromSpecImpl<std::io::Error> for ClientError {
    open spec fn obeys_from_spec() -> bool {
        true
    }

    open spec fn from_spec(e: std::io::Error) -> ClientError {
        ClientError::Connection(e)
    }
}

impl From<anyhow::Error> for ClientError {
    fn from(e: anyhow::Error) -> (r: ClientError) {
        ClientError::Other(e)
    }
}

impl vstd::std_specs::convert::FromSpecImpl<anyhow::Error> for ClientError {
    open spec fn obeys_from_spec() -> bool {
        true
    }

    open spec fn from_spec(e: anyhow::Error) -> ClientError {
        ClientError::Other(e)
    }
}

impl ClientError {
    pub fn is_timeout(&self) -> (r: bool)
        ensures
            r == (*self is Timeout),
    {
        match self {
            ClientError::Timeout => true,
            _ => false,
        }
    }
}

} // verus!
