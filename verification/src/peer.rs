//! What a peer connection decides: which ports it forwards, what it does
//! with each message, and which streams it accepts.
use std::collections::BTreeSet;
use vstd::prelude::*;
use crate::error::{is_custom, Error};
use crate::port_changes::{sorted_ports, strictly_increasing};
use crate::protocol::{same_message, Message};
use crate::text::{decimal, text_with_number};

verus! {

broadcast use {vstd::std_specs::btree::group_btree_axioms, vstd::laws_cmp::group_laws_cmp};

/// The ports that a peer currently forwards.
#[derive(Debug)]
pub struct ExposedPorts {
    ports: BTreeSet<u16>,
}

impl View for ExposedPorts {
    type V = Set<u16>;

    closed spec fn view(&self) -> Set<u16> {
        self.ports@
    }
}

/// The error text for a port that is forwarded already.
pub open spec fn already_exposed_text(port: u16) -> Seq<char> {
    "Port "@ + decimal(port as nat) + " is already exposed"@
}

/// The error text for a port that is not forwarded.
pub open spec fn not_exposed_text(port: u16) -> Seq<char> {
    "Port "@ + decimal(port as nat) + " is not exposed"@
}

impl ExposedPorts {
    /// No port forwarded.
    pub fn new() -> (e: ExposedPorts)
        ensures
            e@ == Set::<u16>::empty(),
    {
        ExposedPorts { ports: BTreeSet::new() }
    }

    /// Starts forwarding a port, unless it is forwarded already.
    pub fn expose_port(&mut self, local_port: u16) -> (r: Result<(), Error>)
        ensures
            old(self)@.contains(local_port) ==> final(self)@ == old(self)@ && (r matches Err(e)
                && is_custom(e, already_exposed_text(local_port))),
            !old(self)@.contains(local_port) ==> final(self)@ == old(self)@.insert(local_port)
                && r is Ok,
    {
        if self.ports.contains(&local_port) {
            return Err(Error::Custom(text_with_number("Port ", local_port, " is already exposed")));
        }
        self.ports.insert(local_port);
        Ok(())
    }

    /// Stops forwarding a port, which must be forwarded.
    pub fn unexpose_port(&mut self, remote_port: u16) -> (r: Result<(), Error>)
        ensures
            old(self)@.contains(remote_port) ==> final(self)@ == old(self)@.remove(remote_port)
                && r is Ok,
            !old(self)@.contains(remote_port) ==> final(self)@ == old(self)@ && (r matches Err(e)
                && is_custom(e, not_exposed_text(remote_port))),
    {
        if self.ports.remove(&remote_port) {
            Ok(())
        } else {
            Err(Error::Custom(text_with_number("Port ", remote_port, " is not exposed")))
        }
    }

    /// The forwarded ports, in increasing order.
    pub fn exposed_ports(&self) -> (r: Vec<u16>)
        ensures
            r@.to_set() == self@,
            strictly_increasing(r@),
    {
        sorted_ports(&self.ports)
    }

    /// Stops forwarding every port; gives back the ports that were forwarded,
    /// in increasing order.
    pub fn shutdown(&mut self) -> (r: Vec<u16>)
        ensures
            final(self)@ == Set::<u16>::empty(),
            r@.to_set() == old(self)@,
            strictly_increasing(r@),
    {
        let r = sorted_ports(&self.ports);
        self.ports.clear();
        r
    }
}

/// The ports among the first `i` of `ports`.
pub open spec fn first_ports(ports: Seq<u16>, i: int) -> Set<u16> {
    ports.subrange(0, i).to_set()
}

/// Whether `res` is what asking to forward `port` gives when `before` are
/// the forwarded ports.
pub open spec fn expose_outcome(before: Set<u16>, port: u16, res: Result<(), Error>) -> bool {
    if before.contains(port) {
        res matches Err(e) && is_custom(e, already_exposed_text(port))
    } else {
        res is Ok
    }
}

/// Whether `res` is what asking to stop forwarding `port` gives when
/// `before` are the forwarded ports.
pub open spec fn unexpose_outcome(before: Set<u16>, port: u16, res: Result<(), Error>) -> bool {
    if before.contains(port) {
        res is Ok
    } else {
        res matches Err(e) && is_custom(e, not_exposed_text(port))
    }
}

proof fn lemma_first_ports_step(ports: Seq<u16>, i: int)
    requires
        0 <= i < ports.len(),
    ensures
        first_ports(ports, i + 1) == first_ports(ports, i).insert(ports[i]),
{
    assert(ports.subrange(0, i + 1) =~= ports.subrange(0, i).push(ports[i]));
    ports.subrange(0, i).lemma_push_to_set_commute(ports[i]);
}

proof fn lemma_first_ports_all(ports: Seq<u16>)
    ensures
        first_ports(ports, ports.len() as int) == ports.to_set(),
{
    assert(ports.subrange(0, ports.len() as int) =~= ports);
}

impl ExposedPorts {
    /// Forwards each of `ports` in turn; the outcome of each, in order: an
    /// error for a port that was forwarded already (before, or earlier in
    /// the list).
    pub fn expose_ports(&mut self, ports: &Vec<u16>) -> (r: Vec<Result<(), Error>>)
        ensures
            final(self)@ == old(self)@.union(ports@.to_set()),
            r@.len() == ports@.len(),
            forall|i: int|
                0 <= i < ports@.len() ==> expose_outcome(
                    old(self)@.union(first_ports(ports@, i)),
                    ports@[i],
                    #[trigger] r@[i],
                ),
    {
        let ghost start = self@;
        let mut r: Vec<Result<(), Error>> = Vec::new();
        let mut i: usize = 0;
        while i < ports.len()
            invariant
                i <= ports@.len(),
                r@.len() == i,
                self@ == start.union(first_ports(ports@, i as int)),
                forall|j: int|
                    0 <= j < i ==> expose_outcome(
                        start.union(first_ports(ports@, j)),
                        ports@[j],
                        #[trigger] r@[j],
                    ),
            decreases ports@.len() - i,
        {
            proof {
                lemma_first_ports_step(ports@, i as int);
            }
            let res = self.expose_port(ports[i]);
            r.push(res);
            assert(self@ =~= start.union(first_ports(ports@, i + 1)));
            i = i + 1;
        }
        proof {
            lemma_first_ports_all(ports@);
        }
        r
    }

    /// Stops forwarding each of `ports` in turn; the outcome of each, in
    /// order: an error for a port that was not forwarded (or stopped earlier
    /// in the list).
    pub fn unexpose_ports(&mut self, ports: &Vec<u16>) -> (r: Vec<Result<(), Error>>)
        ensures
            final(self)@ == old(self)@.difference(ports@.to_set()),
            r@.len() == ports@.len(),
            forall|i: int|
                0 <= i < ports@.len() ==> unexpose_outcome(
                    old(self)@.difference(first_ports(ports@, i)),
                    ports@[i],
                    #[trigger] r@[i],
                ),
    {
        let ghost start = self@;
        let mut r: Vec<Result<(), Error>> = Vec::new();
        let mut i: usize = 0;
        while i < ports.len()
            invariant
                i <= ports@.len(),
                r@.len() == i,
                self@ == start.difference(first_ports(ports@, i as int)),
                forall|j: int|
                    0 <= j < i ==> unexpose_outcome(
                        start.difference(first_ports(ports@, j)),
                        ports@[j],
                        #[trigger] r@[j],
                    ),
            decreases ports@.len() - i,
        {
            proof {
                lemma_first_ports_step(ports@, i as int);
            }
            let res = self.unexpose_port(ports[i]);
            r.push(res);
            assert(self@ =~= start.difference(first_ports(ports@, i + 1)));
            i = i + 1;
        }
        proof {
            lemma_first_ports_all(ports@);
        }
        r
    }

    /// Carries out what a one-way message asks of the forwarded ports: an
    /// `Expose` adds its ports, an `Unexpose` takes its ports away, and any
    /// other action leaves them as they are. Gives the outcome for each port
    /// of the action, in order.
    pub fn apply(&mut self, action: &UniAction) -> (r: Vec<Result<(), Error>>)
        ensures
            final(self)@ == ports_after(old(self)@, *action),
            match *action {
                UniAction::Expose(v) => {
                    &&& final(self)@ == old(self)@.union(v@.to_set())
                    &&& r@.len() == v@.len()
                    &&& forall|i: int|
                        0 <= i < v@.len() ==> expose_outcome(
                            old(self)@.union(first_ports(v@, i)),
                            v@[i],
                            #[trigger] r@[i],
                        )
                },
                UniAction::Unexpose(v) => {
                    &&& final(self)@ == old(self)@.difference(v@.to_set())
                    &&& r@.len() == v@.len()
                    &&& forall|i: int|
                        0 <= i < v@.len() ==> unexpose_outcome(
                            old(self)@.difference(first_ports(v@, i)),
                            v@[i],
                            #[trigger] r@[i],
                        )
                },
                _ => final(self)@ == old(self)@ && r@.len() == 0,
            },
    {
        match action {
            UniAction::Expose(v) => self.expose_ports(v),
            UniAction::Unexpose(v) => self.unexpose_ports(v),
            _ => Vec::new(),
        }
    }
}

/// The forwarded ports after carrying out `a`, when `before` were forwarded.
pub open spec fn ports_after(before: Set<u16>, a: UniAction) -> Set<u16> {
    match a {
        UniAction::Expose(v) => before.union(v@.to_set()),
        UniAction::Unexpose(v) => before.difference(v@.to_set()),
        _ => before,
    }
}

/// What a message received on a one-way stream does to the forwarded ports:
/// a request to expose one port adds it, a request to stop forwarding one
/// takes it away, a list of new or known ports adds them all, a list of removed
/// ports takes them all away, and every other message leaves the ports as
/// they are.
pub proof fn lemma_message_effect_on_ports(message: Message, has_port_manager: bool, a: UniAction, before: Set<u16>)
    requires
        action_for(message, has_port_manager, a),
    ensures
        ports_after(before, a) == match message {
            Message::ExposeTcp { local_port } => before.insert(local_port),
            Message::UnexposeTcp { local_port } => before.remove(local_port),
            Message::NewKnownPorts { value } => before.union(value@.to_set()),
            Message::KnownPorts { value } => before.union(value@.to_set()),
            Message::NewRemovedPorts { value } => before.difference(value@.to_set()),
            _ => before,
        },
{
    match message {
        Message::ExposeTcp { local_port } => {
            let v = a->Expose_0;
            assert(v@.to_set() =~= set![local_port]) by {
                assert(v@ == seq![local_port]);
                assert(v@[0] == local_port);
            }
            assert(before.union(v@.to_set()) =~= before.insert(local_port));
        },
        Message::UnexposeTcp { local_port } => {
            let v = a->Unexpose_0;
            assert(v@.to_set() =~= set![local_port]) by {
                assert(v@ == seq![local_port]);
                assert(v@[0] == local_port);
            }
            assert(before.difference(v@.to_set()) =~= before.remove(local_port));
        },
        _ => {},
    }
}

/// Forwarding a port that was not forwarded and then stopping it leaves the
/// forwarded ports as they were.
pub proof fn lemma_expose_then_unexpose(exposed: Set<u16>, port: u16)
    ensures
        !exposed.contains(port) ==> exposed.insert(port).contains(port) && exposed.insert(port).remove(port) == exposed,
{
    if !exposed.contains(port) {
        assert(exposed.insert(port).remove(port) =~= exposed);
    }
}

/// What the peer does with a message received on a one-way stream.
#[derive(Debug)]
pub enum UniAction {
    /// Only report the message.
    Report,
    /// Forward each of these ports, in order.
    Expose(Vec<u16>),
    /// Stop forwarding each of these ports, in order.
    Unexpose(Vec<u16>),
    /// Send the shared open ports back (see `known_ports_reply`).
    SendKnownPorts,
    /// Nothing to do.
    Ignore,
}

/// Whether an action matches the one the message calls for (ports compared
/// by their lists).
pub open spec fn action_for(message: Message, has_port_manager: bool, a: UniAction) -> bool {
    match (message, a) {
        (Message::Ping, UniAction::Report) => true,
        (Message::Pong, UniAction::Report) => true,
        (Message::Text { .. }, UniAction::Report) => true,
        (Message::ExposeTcp { local_port }, UniAction::Expose(v)) => v@ == seq![local_port],
        (Message::UnexposeTcp { local_port }, UniAction::Unexpose(v)) => v@ == seq![local_port],
        (Message::NewRemovedPorts { value }, UniAction::Unexpose(v)) => v@ == value@,
        (Message::NewKnownPorts { value }, UniAction::Expose(v)) => v@ == value@,
        (Message::KnownPorts { value }, UniAction::Expose(v)) => v@ == value@,
        (Message::GetPorts, UniAction::SendKnownPorts) => has_port_manager,
        (Message::GetPorts, UniAction::Ignore) => !has_port_manager,
        (Message::ForwardTcp { .. }, UniAction::Ignore) => true,
        _ => false,
    }
}

/// Decides what to do with a message received on a one-way stream.
pub fn plan_uni_message(message: Message, has_port_manager: bool) -> (a: UniAction)
    ensures
        action_for(message, has_port_manager, a),
{
    match message {
        Message::Ping => UniAction::Report,
        Message::Pong => UniAction::Report,
        Message::Text { .. } => UniAction::Report,
        Message::ExposeTcp { local_port } => {
            let mut v: Vec<u16> = Vec::new();
            v.push(local_port);
            assert(v@ =~= seq![local_port]);
            UniAction::Expose(v)
        },
        Message::UnexposeTcp { local_port } => {
            let mut v: Vec<u16> = Vec::new();
            v.push(local_port);
            assert(v@ =~= seq![local_port]);
            UniAction::Unexpose(v)
        },
        Message::NewRemovedPorts { value } => UniAction::Unexpose(value),
        Message::NewKnownPorts { value } => UniAction::Expose(value),
        Message::KnownPorts { value } => UniAction::Expose(value),
        Message::GetPorts => if has_port_manager {
            UniAction::SendKnownPorts
        } else {
            UniAction::Ignore
        },
        Message::ForwardTcp { .. } => UniAction::Ignore,
    }
}

/// The reply to a request for ports: the shared open ports in increasing
/// order, or no reply when there are none.
pub fn known_ports_reply(allowed: &BTreeSet<u16>) -> (r: Option<Message>)
    ensures
        allowed@.is_empty() ==> r is None,
        !allowed@.is_empty() ==> (r matches Some(Message::KnownPorts { value }) && value@.to_set()
            == allowed@ && strictly_increasing(value@)),
{
    if allowed.is_empty() {
        None
    } else {
        Some(Message::KnownPorts { value: sorted_ports(allowed) })
    }
}

/// The port that a two-way stream asks to be connected to: the stream must
/// begin with a forwarding request.
pub fn forward_port(header: Message) -> (r: Result<u16, Error>)
    ensures
        header matches Message::ForwardTcp { port } ==> r == Ok::<u16, Error>(port),
        !(header matches Message::ForwardTcp { .. }) ==> (r matches Err(Error::UnexpectedStreamHeader(m)) && m == header),
{
    match header {
        Message::ForwardTcp { port } => Ok(port),
        other => Err(Error::UnexpectedStreamHeader(other)),
    }
}

/// Accepts a received message if it is the one that was due.
pub fn expect_message(expected: Message, got: Message) -> (r: Result<Message, Error>)
    ensures
        same_message(got, expected) ==> (r matches Ok(m) && m == got),
        !same_message(got, expected) ==> (r matches Err(Error::UnexpectedMessage { expected: e, got: g }) && e == expected && g == got),
{
    if got.equals(&expected) {
        Ok(got)
    } else {
        Err(Error::UnexpectedMessage { expected, got })
    }
}

} // verus!
