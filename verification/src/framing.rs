//! How messages are framed on streams: one JSON text per line on the IPC
//! socket, and one JSON text per one-way stream between peers.
use vstd::prelude::*;

verus! {

/// The most bytes read from a one-way stream for one peer message.
pub const MAX_MESSAGE_BYTES: usize = 1048576;

/// A JSON text framed as one line: the text followed by a newline.
pub fn json_line(text: Vec<u8>) -> (line: Vec<u8>)
    ensures
        line@ == text@.push(10u8),
{
    let mut line = text;
    line.push(10u8);
    line
}

/// Whether a line read from the IPC socket means that the client closed the
/// connection: nothing was read.
pub fn is_end_of_stream(bytes_read: usize) -> (b: bool)
    ensures
        b == (bytes_read == 0),
{
    bytes_read == 0
}

} // verus!
