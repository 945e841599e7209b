//! The command stream between the serving side and a client: what the
//! server announces, and what the client makes of it.
use vstd::prelude::*;
use crate::tunnel_response::Response;

verus! {

/// What the serving side's port watcher tells the command stream.
#[derive(Debug, Clone, Copy, PartialEq, Eq, Structural)]
pub enum InnerProtocol {
    NewPort { port: u16 },
}

impl InnerProtocol {
    /// The response line sent for this event: the new port.
    pub fn response(&self) -> (r: Response)
        ensures
            *self matches InnerProtocol::NewPort { port } && r == Response::Port(port),
    {
        match self {
            InnerProtocol::NewPort { port } => Response::Port(*port),
        }
    }
}

/// What a client does with a command received from the server.
#[derive(Debug, Clone, Copy, PartialEq, Eq, Structural)]
pub enum IncomingCommand {
    /// Open a local listener forwarded to this port of the server.
    ProposedPort { port: u16 },
    /// The server acknowledged.
    Acknowledged,
}

impl IncomingCommand {
    /// The command that a received response carries; an error response
    /// carries none.
    pub fn from_response(r: Response) -> (c: Option<IncomingCommand>)
        ensures
            r matches Response::Okay ==> c == Some(IncomingCommand::Acknowledged),
            r matches Response::Error { .. } ==> c is None,
            r matches Response::Port(port) ==> c == Some(IncomingCommand::ProposedPort { port }),
    {
        match r {
            Response::Okay => Some(IncomingCommand::Acknowledged),
            Response::Error { .. } => None,
            Response::Port(port) => Some(IncomingCommand::ProposedPort { port }),
        }
    }
}

/// Whether the server's response lets a forwarded connection proceed: only
/// `OK` does.
pub fn tunnel_accepted(r: &Response) -> (b: bool)
    ensures
        b == (r matches Response::Okay),
{
    match r {
        Response::Okay => true,
        _ => false,
    }
}

} // verus!
