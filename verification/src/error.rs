//! What can go wrong: failures that end a run, failures that stay with one
//! host, and the host identity that is attached to the latter.

use crate::server::{host_identity, HostView, SessionInfo};
use vstd::prelude::*;

verus! {

/// A failure that ends the whole run.
#[derive(Debug)]
pub enum RunError {
    /// The selection pattern is not a regular expression.
    Pattern(String),
    /// The configuration holds no valid member in a valid group.
    DirectoryEmpty,
    /// A task could not be run to its end by what executes the tasks.
    TaskSubstrate(String),
}

/// A failure that stays with one host. The message carries the host's
/// identity.
#[derive(Debug)]
pub enum HostError {
    /// Connecting, the handshake or the authentication failed.
    Connect(String),
    /// The operation on the connected host failed.
    Transfer(String),
}

impl HostError {
    /// The message of this failure.
    pub open spec fn message(self) -> Seq<char> {
        match self {
            HostError::Connect(text) => text@,
            HostError::Transfer(text) => text@,
        }
    }

    /// The failure to connect to `info` for the given cause, with the host's
    /// identity attached.
    pub fn connect(cause: &str, info: &SessionInfo) -> (error: HostError)
        ensures
            error is Connect,
            error.message() == annotated(cause@, info@),
    {
        HostError::Connect(attach_info(cause, info))
    }

    /// The failure of the operation on `info` for the given cause, with the
    /// host's identity attached.
    pub fn transfer(cause: &str, info: &SessionInfo) -> (error: HostError)
        ensures
            error is Transfer,
            error.message() == annotated(cause@, info@),
    {
        HostError::Transfer(attach_info(cause, info))
    }

    /// The message of this failure, as text.
    pub fn describe(&self) -> (text: String)
        ensures
            text@ == self.message(),
    {
        match self {
            HostError::Connect(text) => text.clone(),
            HostError::Transfer(text) => text.clone(),
        }
    }
}

/// A cause with the identity of the host that it concerns: the cause, then
/// `, `, then the host's identity.
pub open spec fn annotated(cause: Seq<char>, host: HostView) -> Seq<char> {
    cause + ", "@ + host_identity(host)
}

/// Attaches the identity of `info` to `cause`.
pub fn attach_info(cause: &str, info: &SessionInfo) -> (message: String)
    ensures
        message@ == annotated(cause@, info@),
{
    let mut message = String::from_str(cause);
    message.append(", ");
    message.append(info.describe().as_str());
    message
}

} // verus!
