//! Tracks the ports open on this machine and decides what to tell peers when
//! they change.
use std::collections::BTreeSet;
use vstd::prelude::*;
use crate::config::Config;
use crate::port_changes::{intersection, sorted_ports, strictly_increasing, PortChanges};
use crate::protocol::Message;

verus! {

broadcast use {vstd::std_specs::btree::group_btree_axioms, vstd::laws_cmp::group_laws_cmp};

/// The ports found open at the last scan, the configuration that says which
/// of them may be shared, and whether the daemon is serving.
#[derive(Debug)]
pub struct PortManager {
    known_ports: BTreeSet<u16>,
    config: Config,
    serving: bool,
}

/// The list of a set's ports, in increasing order.
pub open spec fn ports_list_of(v: Seq<u16>, s: Set<u16>) -> bool {
    v.to_set() == s && strictly_increasing(v)
}

/// What a scan that found `current` open sends to peers, given the ports
/// known from the last scan and the shared ports: a notice of the newly open
/// shared ports, if any port opened; then, only if that notice was sent or no
/// port opened, a notice of the shared ports that closed, if any port closed.
/// A port that opened but is not shared ends the round before the closed
/// ports are looked at.
pub open spec fn scan_notices(known: Set<u16>, shared: Set<u16>, current: Set<u16>, sent: Seq<Message>) -> bool {
    let added = current.difference(known);
    let removed = known.difference(current);
    let added_shared = shared.intersect(added);
    let removed_shared = shared.intersect(removed);
    if !added.is_empty() && added_shared.is_empty() {
        sent.len() == 0
    } else {
        let first: Seq<Message> = if added.is_empty() { Seq::empty() } else { sent.take(1) };
        let rest = sent.skip(first.len() as int);
        &&& first.len() <= sent.len()
        &&& (!added.is_empty() ==> sent.len() >= 1 && (sent[0] matches Message::NewKnownPorts { value } && ports_list_of(value@, added_shared)))
        &&& if removed.is_empty() || removed_shared.is_empty() {
            rest.len() == 0
        } else {
            rest.len() == 1 && (rest[0] matches Message::NewRemovedPorts { value } && ports_list_of(value@, removed_shared))
        }
    }
}

impl PortManager {
    /// A manager that knows no open port and is not serving.
    pub fn new(config: Config) -> (m: PortManager)
        ensures
            m.known_ports() == Set::<u16>::empty(),
            m.shared_ports() == config.shared_ports@,
            !m.is_serving(),
    {
        PortManager { known_ports: BTreeSet::new(), config, serving: false }
    }

    /// The ports found open at the last scan.
    pub closed spec fn known_ports(&self) -> Set<u16> {
        self.known_ports@
    }

    /// The ports that the configuration allows to share.
    pub closed spec fn shared_ports(&self) -> Set<u16> {
        self.config.shared_ports@
    }

    /// Whether the manager scans and reports ports.
    pub closed spec fn is_serving(&self) -> bool {
        self.serving
    }

    /// Whether the manager scans and reports ports.
    pub fn serving(&self) -> (b: bool)
        ensures
            b == self.is_serving(),
    {
        self.serving
    }

    /// Starts reporting port changes.
    pub fn enable(&mut self)
        ensures
            final(self).is_serving(),
            final(self).known_ports() == old(self).known_ports(),
            final(self).shared_ports() == old(self).shared_ports(),
    {
        self.serving = true;
    }

    /// Stops reporting port changes.
    pub fn disable(&mut self)
        ensures
            !final(self).is_serving(),
            final(self).known_ports() == old(self).known_ports(),
            final(self).shared_ports() == old(self).shared_ports(),
    {
        self.serving = false;
    }

    /// Replaces the configuration.
    pub fn set_config(&mut self, config: Config)
        ensures
            final(self).shared_ports() == config.shared_ports@,
            final(self).known_ports() == old(self).known_ports(),
            final(self).is_serving() == old(self).is_serving(),
    {
        self.config = config;
    }

    /// The open ports that may be shared.
    pub fn get_allowed_known_ports(&self) -> (r: BTreeSet<u16>)
        ensures
            r@ == self.shared_ports().intersect(self.known_ports()),
    {
        intersection(&self.config.shared_ports, &self.known_ports)
    }

    /// The open ports that may be shared, in increasing order.
    pub fn allowed_known_ports(&self) -> (r: Vec<u16>)
        ensures
            ports_list_of(r@, self.shared_ports().intersect(self.known_ports())),
    {
        let allowed = self.get_allowed_known_ports();
        sorted_ports(&allowed)
    }

    /// How the ports open now differ from the ports known.
    pub fn compare(&self, current: &BTreeSet<u16>) -> (c: PortChanges)
        ensures
            c.added@ == current@.difference(self.known_ports()),
            c.removed@ == self.known_ports().difference(current@),
            c.ports_known@ == current@,
    {
        PortChanges::compare_ports(&self.known_ports, current)
    }

    /// Takes in the ports that a scan found open: when serving, they become the
    /// known ports and the notices for peers are returned (see
    /// `scan_notices`); when not serving, nothing changes and nothing is sent.
    pub fn observe(&mut self, current: &BTreeSet<u16>) -> (sent: Vec<Message>)
        ensures
            final(self).shared_ports() == old(self).shared_ports(),
            final(self).is_serving() == old(self).is_serving(),
            old(self).is_serving() ==> final(self).known_ports() == current@ && scan_notices(
                old(self).known_ports(),
                old(self).shared_ports(),
                current@,
                sent@,
            ),
            !old(self).is_serving() ==> final(self).known_ports() == old(self).known_ports()
                && sent@.len() == 0,
    {
        let mut sent: Vec<Message> = Vec::new();
        if !self.serving {
            return sent;
        }
        let ghost known = self.known_ports@;
        let ghost shared = self.config.shared_ports@;
        let changes = self.compare(current);
        self.known_ports = changes.ports_known;
        if !changes.added.is_empty() {
            let added_allowed = intersection(&self.config.shared_ports, &changes.added);
            let ports = sorted_ports(&added_allowed);
            if ports.len() == 0 {
                assert(added_allowed@ =~= Set::<u16>::empty()) by {
                    if added_allowed@.len() > 0 {
                        let p = added_allowed@.choose();
                        assert(ports@.to_set().contains(p));
                    }
                }
                return sent;
            }
            sent.push(Message::NewKnownPorts { value: ports });
        }
        let ghost after_added = sent@;
        if !changes.removed.is_empty() {
            let removed_allowed = intersection(&self.config.shared_ports, &changes.removed);
            let ports = sorted_ports(&removed_allowed);
            if ports.len() == 0 {
                assert(removed_allowed@ =~= Set::<u16>::empty()) by {
                    if removed_allowed@.len() > 0 {
                        let p = removed_allowed@.choose();
                        assert(ports@.to_set().contains(p));
                    }
                }
                assert(sent@.skip(sent@.len() as int) =~= Seq::<Message>::empty());
                return sent;
            }
            sent.push(Message::NewRemovedPorts { value: ports });
        }
        proof {
            let added = current@.difference(known);
            if added.is_empty() {
                assert(sent@.skip(0) =~= sent@);
            } else {
                assert(sent@.take(1) =~= after_added);
            }
            assert(sent@.skip(after_added.len() as int) =~= sent@.subrange(after_added.len() as int, sent@.len() as int));
        }
        sent
    }
}

/// Whether a port list announces only ports of the set.
pub open spec fn announces_within(value: Seq<u16>, s: Set<u16>) -> bool {
    forall|i: int| 0 <= i < value.len() ==> s.contains(#[trigger] value[i])
}

/// Only shared ports are ever announced: a scan's notice of opened ports
/// names shared ports that are open now and were not before, and its notice
/// of closed ports names shared ports that were open and are not now; at most
/// one of each is sent, opened ports first.
pub proof fn lemma_notices_announce_shared_ports(
    known: Set<u16>,
    shared: Set<u16>,
    current: Set<u16>,
    sent: Seq<Message>,
)
    requires
        scan_notices(known, shared, current, sent),
    ensures
        sent.len() <= 2,
        forall|i: int|
            0 <= i < sent.len() ==> match #[trigger] sent[i] {
                Message::NewKnownPorts { value } => i == 0 && announces_within(
                    value@,
                    shared.intersect(current.difference(known)),
                ),
                Message::NewRemovedPorts { value } => announces_within(
                    value@,
                    shared.intersect(known.difference(current)),
                ),
                _ => false,
            },
{
    let added = current.difference(known);
    let removed = known.difference(current);
    if !added.is_empty() && shared.intersect(added).is_empty() {
    } else {
        let first: Seq<Message> = if added.is_empty() { Seq::empty() } else { sent.take(1) };
        let rest = sent.skip(first.len() as int);
        assert forall|i: int| 0 <= i < sent.len() implies match #[trigger] sent[i] {
            Message::NewKnownPorts { value } => i == 0 && announces_within(
                value@,
                shared.intersect(current.difference(known)),
            ),
            Message::NewRemovedPorts { value } => announces_within(
                value@,
                shared.intersect(known.difference(current)),
            ),
            _ => false,
        } by {
            if i < first.len() {
                if let Message::NewKnownPorts { value } = sent[0] {
                    assert forall|k: int| 0 <= k < value@.len() implies shared.intersect(added).contains(
                        #[trigger] value@[k],
                    ) by {
                        assert(value@.to_set().contains(value@[k]));
                    }
                }
            } else {
                assert(sent[i] == rest[i - first.len()]);
                if let Message::NewRemovedPorts { value } = rest[0] {
                    assert forall|k: int| 0 <= k < value@.len() implies shared.intersect(removed).contains(
                        #[trigger] value@[k],
                    ) by {
                        assert(value@.to_set().contains(value@[k]));
                    }
                }
            }
        }
    }
}

} // verus!
