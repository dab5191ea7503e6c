//! The ways in which a peer can break the protocol beyond repair.

use vstd::prelude::*;

verus! {

/// A violation of the handshake protocol. Each one is fatal: the state
/// machine that reports it makes no attempt to recover, and the connection
/// is to be torn down.
#[derive(Clone, Copy, Debug, PartialEq, Eq, Structural)]
pub enum Error {
    /// The first byte that a client sent was not NUL.
    FirstByteNotNul,
    /// The server's answer to the authentication request was not `OK`
    /// followed by a bus identifier.
    UnexpectedAuthReply,
    /// The server's answer to the request for file descriptor passing was
    /// neither an agreement nor an error.
    UnexpectedUnixFdReply,
    /// A client asked to begin before it was authenticated.
    BeginBeforeAuth,
}

impl Error {
    /// The reason for the failure, in words.
    pub open spec fn reason(self) -> Seq<char> {
        match self {
            Error::FirstByteNotNul => "First client byte is not NUL!"@,
            Error::UnexpectedAuthReply => "Unexpected server AUTH reply"@,
            Error::UnexpectedUnixFdReply => "Unexpected server UNIX_FD reply"@,
            Error::BeginBeforeAuth => "Received BEGIN while not authenticated"@,
        }
    }

    /// The reason for the failure, in words.
    pub fn message(&self) -> (text: String)
        ensures
            text@ == self.reason(),
    {
        match self {
            Error::FirstByteNotNul => "First client byte is not NUL!".to_owned(),
            Error::UnexpectedAuthReply => "Unexpected server AUTH reply".to_owned(),
            Error::UnexpectedUnixFdReply => "Unexpected server UNIX_FD reply".to_owned(),
            Error::BeginBeforeAuth => "Received BEGIN while not authenticated".to_owned(),
        }
    }
}

} // verus!
