//! The failures that the protocol engine reports.
use vstd::prelude::*;

verus! {

/// A failure, by kind, with the text shown to the user.
#[derive(Clone, Debug)]
pub enum AdbError {
    /// The server could not be reached.
    Transport(String),
    /// The bytes on the wire are not what the protocol allows.
    Protocol(String),
    /// The server or the device answered `FAIL`; the text is theirs.
    ServerReject(String),
    /// One file of a transfer failed.
    SyncOp(String),
    /// The command line asks for something that cannot be done.
    Argument(String),
    /// A local file operation failed.
    LocalIo(String),
}

impl AdbError {
    pub open spec fn text(&self) -> Seq<char> {
        match self {
            AdbError::Transport(m) => m@,
            AdbError::Protocol(m) => m@,
            AdbError::ServerReject(m) => m@,
            AdbError::SyncOp(m) => m@,
            AdbError::Argument(m) => m@,
            AdbError::LocalIo(m) => m@,
        }
    }

    /// The text shown to the user.
    pub fn message(&self) -> (r: &str)
        ensures
            r@ == self.text(),
    {
        match self {
            AdbError::Transport(m) => m.as_str(),
            AdbError::Protocol(m) => m.as_str(),
            AdbError::ServerReject(m) => m.as_str(),
            AdbError::SyncOp(m) => m.as_str(),
            AdbError::Argument(m) => m.as_str(),
            AdbError::LocalIo(m) => m.as_str(),
        }
    }
}

} // verus!
