//! The tunnel protocol handlers: the echo handler, and the handler that
//! decides which ports a tunnel request may open.
use vstd::prelude::*;
use vstd::string::StringExecFns;
use crate::text::{decimal, text_with_number};
use crate::tunnel_request::Request;
use crate::tunnel_response::Response;

verus! {

/// Errors of the echo handler.
#[derive(Debug)]
pub enum TunnelError {
    EmptyPayload,
}

impl TunnelError {
    /// The error's description.
    pub fn message(&self) -> (s: String)
        ensures
            s@ == "empty payload"@,
    {
        match self {
            TunnelError::EmptyPayload => String::from_str("empty payload"),
        }
    }
}

/// The tunnel handler. With `echo`, it sends back what a client sent;
/// without, it closes each connection at once.
#[derive(Debug)]
pub struct Tunnel {
    echo: bool,
}

impl Tunnel {
    /// A handler that echoes or not.
    pub fn new(echo: bool) -> (t: Tunnel)
        ensures
            t.echoes() == echo,
    {
        Tunnel { echo }
    }

    /// Whether the handler echoes.
    pub closed spec fn echoes(&self) -> bool {
        self.echo
    }

    /// Whether the handler echoes.
    pub fn is_echo(&self) -> (b: bool)
        ensures
            b == self.echoes(),
    {
        self.echo
    }

    /// The reply to everything a client sent: the same bytes; nothing sent
    /// is an error.
    pub fn echo_reply(payload: Vec<u8>) -> (r: Result<Vec<u8>, TunnelError>)
        ensures
            payload@.len() == 0 ==> r matches Err(TunnelError::EmptyPayload),
            payload@.len() > 0 ==> (r matches Ok(back) && back@ == payload@),
    {
        if payload.len() == 0 {
            Err(TunnelError::EmptyPayload)
        } else {
            Ok(payload)
        }
    }
}

/// The ports that tunnels may open.
#[derive(Debug)]
pub struct TunnelConfig {
    pub allowed_ports: Vec<u16>,
}

/// The handler of tunnel requests.
#[derive(Debug)]
pub struct TunnelProtocol {
    allowed_ports: Vec<u16>,
}

/// The message of the refusal of a port that may not be opened.
pub open spec fn not_allowed_text(port: u16) -> Seq<char> {
    "port "@ + decimal(port as nat) + " is not allowed"@
}

impl TunnelProtocol {
    /// A handler that opens the configured ports.
    pub fn new(config: &TunnelConfig) -> (t: TunnelProtocol)
        ensures
            t.allowed() == config.allowed_ports@,
    {
        let mut allowed_ports: Vec<u16> = Vec::new();
        let mut i: usize = 0;
        while i < config.allowed_ports.len()
            invariant
                i <= config.allowed_ports@.len(),
                allowed_ports@ == config.allowed_ports@.subrange(0, i as int),
            decreases config.allowed_ports@.len() - i,
        {
            allowed_ports.push(config.allowed_ports[i]);
            assert(allowed_ports@ =~= config.allowed_ports@.subrange(0, i + 1));
            i = i + 1;
        }
        assert(allowed_ports@ =~= config.allowed_ports@);
        TunnelProtocol { allowed_ports }
    }

    /// The ports that may be opened.
    pub closed spec fn allowed(&self) -> Seq<u16> {
        self.allowed_ports@
    }

    /// Whether a tunnel may open the port.
    pub fn port_allowed(&self, port: u16) -> (b: bool)
        ensures
            b == self.allowed().contains(port),
    {
        let mut i: usize = 0;
        while i < self.allowed_ports.len()
            invariant
                i <= self.allowed_ports@.len(),
                forall|k: int| 0 <= k < i ==> self.allowed_ports@[k] != port,
            decreases self.allowed_ports@.len() - i,
        {
            if self.allowed_ports[i] == port {
                assert(self.allowed_ports@[i as int] == port);
                return true;
            }
            i = i + 1;
        }
        false
    }

    /// Decides a tunnel request: the port to connect to, or the refusal to
    /// send back.
    pub fn decide_request(&self, request: Request) -> (r: Result<u16, Response>)
        ensures
            request matches Request::Open { port } && (self.allowed().contains(port) ==> r == Ok::<
                u16,
                Response,
            >(port)) && (!self.allowed().contains(port) ==> (r matches Err(Response::Error { message })
                && message@ == not_allowed_text(port))),
    {
        match request {
            Request::Open { port } => {
                if self.port_allowed(port) {
                    Ok(port)
                } else {
                    Err(Response::Error { message: text_with_number("port ", port, " is not allowed") })
                }
            },
        }
    }
}

} // verus!
