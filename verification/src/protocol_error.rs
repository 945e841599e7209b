//! Errors of the line-based tunnel protocol.
use vstd::prelude::*;

verus! {

/// What can go wrong while reading a request or response line.
#[derive(Debug)]
pub enum Error {
    /// A free-form error.
    Custom(String),
    /// The port field did not hold a port number; the field's text.
    PortParseError { port: String },
}

} // verus!
