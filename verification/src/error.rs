//! The daemon's errors.
use vstd::prelude::*;
use crate::protocol::Message;

verus! {

/// What a daemon operation can fail with.
#[derive(Debug)]
pub enum Error {
    /// A failure described in words.
    Custom(String),
    /// A peer sent another message than the one that was due.
    UnexpectedMessage { expected: Message, got: Message },
    /// A stream began with a message that does not open a forwarded connection.
    UnexpectedStreamHeader(Message),
}

/// Whether the error is a failure described by exactly this text.
pub open spec fn is_custom(e: Error, text: Seq<char>) -> bool {
    e matches Error::Custom(m) && m@ == text
}

} // verus!
