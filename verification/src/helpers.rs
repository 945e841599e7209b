//! Choosing a local port to listen on.
use vstd::prelude::*;

verus! {

/// The highest port that is tried.
pub open spec fn last_port_tried() -> u16 {
    0xfffe
}

/// The first port from `start_port` up to 65534 for which `port_is_available`
/// answers yes, asking about each port in increasing order until one is
/// found. `port_is_available` stands for a check on the machine (such as
/// binding a listener), so its answers are taken as they come; it is asked
/// only about ports from `start_port` up to 65534, never about 65535.
pub fn get_first_available_port<F: Fn(u16) -> bool>(start_port: u16, port_is_available: F) -> (r:
    Option<u16>)
    requires
        forall|p: u16| start_port <= p <= last_port_tried() ==> call_requires(port_is_available, (p,)),
    ensures
        match r {
            Some(p) => start_port <= p <= last_port_tried() && call_ensures(
                port_is_available,
                (p,),
                true,
            ) && forall|q: u16|
                start_port <= q < p ==> #[trigger] call_ensures(port_is_available, (q,), false),
            None => forall|q: u16|
                start_port <= q <= last_port_tried() ==> #[trigger] call_ensures(
                    port_is_available,
                    (q,),
                    false,
                ),
        },
{
    let end_port: u16 = 0xfffe;
    if start_port > end_port {
        return None;
    }
    let mut port = start_port;
    loop
        invariant
            start_port <= port <= end_port,
            end_port == last_port_tried(),
            forall|p: u16| start_port <= p <= last_port_tried() ==> call_requires(port_is_available, (p,)),
            forall|q: u16| start_port <= q < port ==> #[trigger] call_ensures(port_is_available, (q,), false),
        decreases end_port - port,
    {
        let available = port_is_available(port);
        if available {
            return Some(port);
        }
        if port == end_port {
            return None;
        }
        port = port + 1;
    }
}

} // verus!
