//! The messages that peers exchange.
use vstd::prelude::*;

verus! {

/// A message between two peers.
#[derive(Debug)]
pub enum Message {
    Ping,
    Pong,
    Text { value: String },
    NewKnownPorts { value: Vec<u16> },
    NewRemovedPorts { value: Vec<u16> },
    KnownPorts { value: Vec<u16> },
    GetPorts,
    ExposeTcp { local_port: u16 },
    ForwardTcp { port: u16 },
    UnexposeTcp { local_port: u16 },
}

/// Whether two messages are equal: the same variant with equal contents.
pub open spec fn same_message(a: Message, b: Message) -> bool {
    match (a, b) {
        (Message::Ping, Message::Ping) => true,
        (Message::Pong, Message::Pong) => true,
        (Message::Text { value: x }, Message::Text { value: y }) => x@ == y@,
        (Message::NewKnownPorts { value: x }, Message::NewKnownPorts { value: y }) => x@ == y@,
        (Message::NewRemovedPorts { value: x }, Message::NewRemovedPorts { value: y }) => x@ == y@,
        (Message::KnownPorts { value: x }, Message::KnownPorts { value: y }) => x@ == y@,
        (Message::GetPorts, Message::GetPorts) => true,
        (Message::ExposeTcp { local_port: x }, Message::ExposeTcp { local_port: y }) => x == y,
        (Message::ForwardTcp { port: x }, Message::ForwardTcp { port: y }) => x == y,
        (Message::UnexposeTcp { local_port: x }, Message::UnexposeTcp { local_port: y }) => x == y,
        _ => false,
    }
}

fn ports_equal(a: &Vec<u16>, b: &Vec<u16>) -> (r: bool)
    ensures
        r == (a@ == b@),
{
    if a.len() != b.len() {
        return false;
    }
    let mut i: usize = 0;
    while i < a.len()
        invariant
            a@.len() == b@.len(),
            i <= a@.len(),
            forall|k: int| 0 <= k < i ==> a@[k] == b@[k],
        decreases a@.len() - i,
    {
        if a[i] != b[i] {
            return false;
        }
        i = i + 1;
    }
    assert(a@ =~= b@);
    true
}

fn strings_equal(a: &String, b: &String) -> (r: bool)
    ensures
        r == (a@ == b@),
{
    let x = crate::text::chars_of(a.as_str());
    let y = crate::text::chars_of(b.as_str());
    crate::text::chars_eq(&x, &y)
}

impl Message {
    /// Whether this message equals `other` (the same variant, equal contents).
    pub fn equals(&self, other: &Message) -> (r: bool)
        ensures
            r == same_message(*self, *other),
    {
        match (self, other) {
            (Message::Ping, Message::Ping) => true,
            (Message::Pong, Message::Pong) => true,
            (Message::Text { value: x }, Message::Text { value: y }) => strings_equal(x, y),
            (Message::NewKnownPorts { value: x }, Message::NewKnownPorts { value: y }) => ports_equal(x, y),
            (Message::NewRemovedPorts { value: x }, Message::NewRemovedPorts { value: y }) => ports_equal(x, y),
            (Message::KnownPorts { value: x }, Message::KnownPorts { value: y }) => ports_equal(x, y),
            (Message::GetPorts, Message::GetPorts) => true,
            (Message::ExposeTcp { local_port: x }, Message::ExposeTcp { local_port: y }) => *x == *y,
            (Message::ForwardTcp { port: x }, Message::ForwardTcp { port: y }) => *x == *y,
            (Message::UnexposeTcp { local_port: x }, Message::UnexposeTcp { local_port: y }) => *x == *y,
            _ => false,
        }
    }
}

} // verus!
