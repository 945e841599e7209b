//! The daemon's role and the checks that each command passes before it acts.
use vstd::prelude::*;
use crate::error::{is_custom, Error};
use iroh_tickets::endpoint::EndpointTicket;

verus! {

/// What the daemon is doing.
#[derive(Debug, Clone, Copy, PartialEq, Eq, Structural)]
pub enum Role {
    Idle,
    Serving,
    Connecting,
}

#[verifier::external_type_specification]
#[verifier::external_body]
pub struct ExEndpointTicket(EndpointTicket);

/// The endpoint ticket that `iroh_tickets` reads from a text, or `None` when
/// it refuses the text.
pub uninterp spec fn parsed_ticket(text: Seq<char>) -> Option<EndpointTicket>;

/// Parses an endpoint ticket (`EndpointTicket::from_str`, which strips the
/// kind prefix and decodes the base32 ticket body). The result depends on the
/// text alone and is named `parsed_ticket(text@)`; which texts parse, and the
/// ticket's contents, are not described further.
#[verifier::external_body]
fn parse_endpoint_ticket(text: &str) -> (r: Option<EndpointTicket>)
    ensures
        r == parsed_ticket(text@),
{
    text.parse::<EndpointTicket>().ok()
}

/// The daemon's state as its commands see it.
#[derive(Debug, Clone, Copy, PartialEq, Eq, Structural)]
pub struct DaemonState {
    pub role: Role,
    /// Whether the router that accepts peers runs.
    pub router_running: bool,
    /// Whether a connection to a serving peer is held.
    pub client_connected: bool,
}

/// The state's consistency: a router runs only while serving, and a client
/// connection is held exactly while connecting.
pub open spec fn well_formed(s: DaemonState) -> bool {
    &&& s.router_running ==> s.role == Role::Serving
    &&& s.client_connected <==> s.role == Role::Connecting
}

/// A daemon that has just started.
pub open spec fn initial_state() -> DaemonState {
    DaemonState { role: Role::Idle, router_running: false, client_connected: false }
}

pub open spec fn connect_refused_text() -> Seq<char> {
    "connect is only available on an idle daemon"@
}

pub open spec fn bad_ticket_text() -> Seq<char> {
    "Bad ticket"@
}

pub open spec fn expose_refused_text() -> Seq<char> {
    "expose_port is only available on a serving daemon"@
}

pub open spec fn serve_refused_text() -> Seq<char> {
    "A connecting daemon cannot start serving"@
}

pub open spec fn serve_unsupported_text() -> Seq<char> {
    "start_serving is only supported on Linux"@
}

pub open spec fn router_exists_text() -> Seq<char> {
    "Router already exists"@
}

pub open spec fn disconnect_port_refused_text() -> Seq<char> {
    "Only a connecting daemon can disconnect a forwarded port"@
}

pub open spec fn no_peer_text() -> Seq<char> {
    "No peer is connected"@
}

pub open spec fn disconnect_refused_text() -> Seq<char> {
    "disconnect is only available on a connecting daemon"@
}

pub open spec fn router_missing_text() -> Seq<char> {
    "Router not set"@
}

/// The state after a connection to a serving peer was made.
pub open spec fn after_connect(s: DaemonState) -> DaemonState {
    DaemonState { role: Role::Connecting, client_connected: true, ..s }
}

/// The state after serving started (when no router ran).
pub open spec fn after_start_serving(s: DaemonState) -> DaemonState {
    DaemonState { role: Role::Serving, router_running: true, ..s }
}

/// The state after a disconnect (when connecting).
pub open spec fn after_disconnect(s: DaemonState) -> DaemonState {
    DaemonState { role: Role::Idle, client_connected: false, ..s }
}

/// The state after shutdown: disconnected if connecting, router stopped.
pub open spec fn after_shutdown(s: DaemonState) -> DaemonState {
    let d = if s.role == Role::Connecting { after_disconnect(s) } else { s };
    DaemonState { router_running: false, ..d }
}

fn custom(text: &str) -> (e: Error)
    ensures
        is_custom(e, text@),
{
    Error::Custom(text.to_string())
}

impl DaemonState {
    /// A daemon that has just started: idle, no router, no connection.
    pub fn new() -> (s: DaemonState)
        ensures
            s == initial_state(),
    {
        DaemonState { role: Role::Idle, router_running: false, client_connected: false }
    }

    /// The check before connecting to a serving peer: only an idle daemon
    /// connects, and the ticket must parse. Gives the parsed ticket.
    pub fn begin_connect(&self, ticket: &str) -> (r: Result<EndpointTicket, Error>)
        ensures
            self.role != Role::Idle ==> (r matches Err(e) && is_custom(e, connect_refused_text())),
            self.role == Role::Idle && parsed_ticket(ticket@) is None ==> (r matches Err(e)
                && is_custom(e, bad_ticket_text())),
            self.role == Role::Idle && parsed_ticket(ticket@) is Some ==> r is Ok,
            r matches Ok(t) ==> parsed_ticket(ticket@) == Some(t),
    {
        if self.role != Role::Idle {
            return Err(custom("connect is only available on an idle daemon"));
        }
        match parse_endpoint_ticket(ticket) {
            Some(t) => Ok(t),
            None => Err(custom("Bad ticket")),
        }
    }

    /// Records that the connection to the serving peer was made.
    pub fn connected(&mut self)
        ensures
            *final(self) == after_connect(*old(self)),
    {
        self.role = Role::Connecting;
        self.client_connected = true;
    }

    /// The check before asking peers to forward a port: only a serving
    /// daemon does.
    pub fn check_expose(&self) -> (r: Result<(), Error>)
        ensures
            self.role == Role::Serving ==> r is Ok,
            self.role != Role::Serving ==> (r matches Err(e) && is_custom(e, expose_refused_text())),
    {
        if self.role != Role::Serving {
            return Err(custom("expose_port is only available on a serving daemon"));
        }
        Ok(())
    }

    /// The check before serving: a connecting daemon cannot serve, and
    /// serving needs Linux.
    pub fn check_serve(&self, on_linux: bool) -> (r: Result<(), Error>)
        ensures
            self.role == Role::Connecting ==> (r matches Err(e) && is_custom(e, serve_refused_text())),
            self.role != Role::Connecting && !on_linux ==> (r matches Err(e) && is_custom(
                e,
                serve_unsupported_text(),
            )),
            self.role != Role::Connecting && on_linux ==> r is Ok,
    {
        if self.role == Role::Connecting {
            return Err(custom("A connecting daemon cannot start serving"));
        }
        if !on_linux {
            return Err(custom("start_serving is only supported on Linux"));
        }
        Ok(())
    }

    /// Starts the router and begins serving, unless a router runs already.
    pub fn start_serving(&mut self) -> (r: Result<(), Error>)
        ensures
            old(self).router_running ==> *final(self) == *old(self) && (r matches Err(e) && is_custom(
                e,
                router_exists_text(),
            )),
            !old(self).router_running ==> *final(self) == after_start_serving(*old(self)) && r is Ok,
    {
        if self.router_running {
            return Err(custom("Router already exists"));
        }
        self.router_running = true;
        self.role = Role::Serving;
        Ok(())
    }

    /// The check before stopping a forwarded port: only a connecting daemon
    /// with a connection does.
    pub fn check_disconnect_port(&self) -> (r: Result<(), Error>)
        ensures
            self.role != Role::Connecting ==> (r matches Err(e) && is_custom(
                e,
                disconnect_port_refused_text(),
            )),
            self.role == Role::Connecting && !self.client_connected ==> (r matches Err(e)
                && is_custom(e, no_peer_text())),
            self.role == Role::Connecting && self.client_connected ==> r is Ok,
    {
        if self.role != Role::Connecting {
            return Err(custom("Only a connecting daemon can disconnect a forwarded port"));
        }
        if !self.client_connected {
            return Err(custom("No peer is connected"));
        }
        Ok(())
    }

    /// The check before pinging the serving peer: a connection must be held.
    pub fn check_ping(&self) -> (r: Result<(), Error>)
        ensures
            self.client_connected ==> r is Ok,
            !self.client_connected ==> (r matches Err(e) && is_custom(e, no_peer_text())),
    {
        if !self.client_connected {
            return Err(custom("No peer is connected"));
        }
        Ok(())
    }

    /// Drops the connection to the serving peer and becomes idle; only a
    /// connecting daemon disconnects. Whether a connection was held is given
    /// back (its peer is then shut down).
    pub fn disconnect(&mut self) -> (r: Result<bool, Error>)
        ensures
            old(self).role != Role::Connecting ==> *final(self) == *old(self) && (r matches Err(e)
                && is_custom(e, disconnect_refused_text())),
            old(self).role == Role::Connecting ==> *final(self) == after_disconnect(*old(self))
                && r == Ok::<bool, Error>(old(self).client_connected),
    {
        if self.role != Role::Connecting {
            return Err(custom("disconnect is only available on a connecting daemon"));
        }
        let had = self.client_connected;
        self.client_connected = false;
        self.role = Role::Idle;
        Ok(had)
    }

    /// The check before giving out a ticket: the router must run.
    pub fn check_ticket(&self) -> (r: Result<(), Error>)
        ensures
            self.router_running ==> r is Ok,
            !self.router_running ==> (r matches Err(e) && is_custom(e, router_missing_text())),
    {
        if !self.router_running {
            return Err(custom("Router not set"));
        }
        Ok(())
    }

    /// Shuts down: disconnects if connecting, and stops the router. Gives
    /// back whether a connection was dropped.
    pub fn shutdown(&mut self) -> (dropped: bool)
        ensures
            *final(self) == after_shutdown(*old(self)),
            dropped == (old(self).role == Role::Connecting && old(self).client_connected),
    {
        let dropped = match self.disconnect() {
            Ok(had) => had,
            Err(_) => false,
        };
        self.router_running = false;
        dropped
    }
}

/// Every command keeps the state consistent: a fresh daemon is consistent,
/// and connecting (after its check passed), serving, disconnecting and
/// shutting down each lead from a consistent state to a consistent one.
pub proof fn lemma_commands_keep_consistency(s: DaemonState)
    ensures
        well_formed(initial_state()),
        well_formed(s) && s.role == Role::Idle ==> well_formed(after_connect(s)),
        well_formed(s) && s.role != Role::Connecting && !s.router_running ==> well_formed(
            after_start_serving(s),
        ),
        well_formed(s) && s.role == Role::Connecting ==> well_formed(after_disconnect(s)),
        well_formed(s) ==> well_formed(after_shutdown(s)),
{
}

/// Serving starts once: once it started, the router runs, so a second start
/// is refused.
pub proof fn lemma_serving_starts_once(s: DaemonState)
    ensures
        after_start_serving(s).router_running,
        after_start_serving(s).role == Role::Serving,
{
}

/// In a consistent daemon the roles exclude each other: a serving daemon
/// holds no client connection, and a connecting one runs no router.
pub proof fn lemma_roles_exclude(s: DaemonState)
    requires
        well_formed(s),
    ensures
        s.role == Role::Serving ==> !s.client_connected,
        s.role == Role::Connecting ==> !s.router_running,
{
}

/// What the daemon reports about itself.
#[derive(Debug)]
pub struct Status {
    pub running: bool,
    pub role: Role,
    pub serving: bool,
    pub connected: bool,
    pub ticket: Option<String>,
    pub forwarded_ports: Vec<u16>,
    pub available_ports: Vec<u16>,
}

impl DaemonState {
    /// The daemon's status, given the number of peers served, the ticket, the
    /// forwarded ports and the shared open ports: a serving daemon counts as
    /// connected when it serves some peer and reports its ticket and shared
    /// ports; a connecting one counts as connected when it holds its
    /// connection and reports the ports it forwards.
    pub fn status(
        &self,
        peer_count: usize,
        ticket: Option<String>,
        forwarded_ports: Vec<u16>,
        available_ports: Vec<u16>,
    ) -> (st: Status)
        ensures
            st.running,
            st.role == self.role,
            st.serving == (self.role == Role::Serving),
            st.connected == if self.role == Role::Serving {
                peer_count > 0
            } else {
                self.client_connected
            },
            st.ticket == if self.role == Role::Serving {
                ticket
            } else {
                None::<String>
            },
            st.forwarded_ports@ == if self.role == Role::Connecting {
                forwarded_ports@
            } else {
                Seq::<u16>::empty()
            },
            st.available_ports@ == if self.role == Role::Serving {
                available_ports@
            } else {
                Seq::<u16>::empty()
            },
    {
        let serving = self.role == Role::Serving;
        let connected = if serving {
            peer_count > 0
        } else {
            self.client_connected
        };
        Status {
            running: true,
            role: self.role,
            serving,
            connected,
            ticket: if serving {
                ticket
            } else {
                None
            },
            forwarded_ports: if self.role == Role::Connecting {
                forwarded_ports
            } else {
                Vec::new()
            },
            available_ports: if serving {
                available_ports
            } else {
                Vec::new()
            },
        }
    }
}

} // verus!
