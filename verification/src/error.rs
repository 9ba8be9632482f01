//! The ways a purge can fail.

use vstd::prelude::*;

verus! {

/// Every failure is fatal; the kind says which stage gave up.
#[derive(Clone, Copy, Debug, PartialEq, Eq, Structural)]
pub enum PurgeError {
    /// Wrong number of arguments, or a skip count that is no number.
    Argument,
    /// A file could not be read or written, or a line of the key list is
    /// not text.
    Io,
    /// The archive is not a zlib stream, or does not inflate to text.
    Decode,
    /// The connection to the store could not be opened.
    Connection,
    /// The store rejected a batch, or the connection broke during one.
    Command,
}

impl PurgeError {
    /// A short description for the operator.
    pub fn message(&self) -> (text: &'static str)
        ensures
            text@ == match *self {
                PurgeError::Argument => "invalid arguments"@,
                PurgeError::Io => "file could not be read or written"@,
                PurgeError::Decode => "archive could not be decoded"@,
                PurgeError::Connection => "store connection failed"@,
                PurgeError::Command => "store command failed"@,
            },
    {
        match *self {
            PurgeError::Argument => "invalid arguments",
            PurgeError::Io => "file could not be read or written",
            PurgeError::Decode => "archive could not be decoded",
            PurgeError::Connection => "store connection failed",
            PurgeError::Command => "store command failed",
        }
    }
}

} // verus!
