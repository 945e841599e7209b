use devptp::daemon::{Role, Status};
use devptp::error::Error;
use devptp::ipc::{plan_request, reply_message, reply_of, IpcAction, IpcMethod, IpcReply, IpcWork};
use devptp::protocol::Message;

fn connected_status() -> Status {
    Status {
        running: true,
        role: Role::Connecting,
        serving: false,
        connected: true,
        ticket: None,
        forwarded_ports: vec![8083, 9000],
        available_ports: vec![],
    }
}

#[test]
fn disconnect_with_a_port_stops_only_that_port() {
    assert_eq!(plan_request(IpcMethod::Disconnect, Some(8083)), IpcAction::DisconnectPort(8083));
    assert_eq!(plan_request(IpcMethod::Disconnect, None), IpcAction::Disconnect);
    assert_eq!(plan_request(IpcMethod::Ping, Some(8083)), IpcAction::Ping);
    assert_eq!(plan_request(IpcMethod::Unknown, None), IpcAction::Reject);
}

#[test]
fn each_method_has_its_own_result() {
    assert!(matches!(reply_of(IpcAction::Ping, IpcWork::Done, "ping"), Some(Ok(IpcReply::Pong))));
    match reply_of(IpcAction::StartServing, IpcWork::Ticket("endpointabc".to_string()), "start_serving") {
        Some(Ok(IpcReply::Ticket(t))) => assert_eq!(t, "endpointabc"),
        other => panic!("unexpected {other:?}"),
    }
    assert!(matches!(reply_of(IpcAction::Connect, IpcWork::Done, "connect"), Some(Ok(IpcReply::Connected))));
    assert!(matches!(
        reply_of(IpcAction::ExposePort, IpcWork::Port(8083), "expose_port"),
        Some(Ok(IpcReply::LocalPort(8083)))
    ));
    match reply_of(IpcAction::Status, IpcWork::Status(connected_status()), "status") {
        Some(Ok(IpcReply::Status(s))) => {
            assert!(s.connected);
            assert_eq!(s.forwarded_ports, vec![8083, 9000]);
        }
        other => panic!("unexpected {other:?}"),
    }
    match reply_of(IpcAction::ListForwardedPorts, IpcWork::Status(connected_status()), "list_forwarded_ports") {
        Some(Ok(IpcReply::Ports(p))) => assert_eq!(p, vec![8083, 9000]),
        other => panic!("unexpected {other:?}"),
    }
    assert!(matches!(
        reply_of(IpcAction::DisconnectPort(8083), IpcWork::Done, "disconnect"),
        Some(Ok(IpcReply::PortDisconnected(8083)))
    ));
    assert!(matches!(reply_of(IpcAction::Disconnect, IpcWork::Done, "disconnect"), Some(Ok(IpcReply::Disconnected))));
    assert!(matches!(reply_of(IpcAction::Shutdown, IpcWork::Done, "shutdown"), Some(Ok(IpcReply::Shutdown))));
}

#[test]
fn failed_work_is_reported_except_for_disconnect() {
    match reply_of(IpcAction::Ping, IpcWork::Failed("No peer is connected".to_string()), "ping") {
        Some(Err(m)) => assert_eq!(m, "No peer is connected"),
        other => panic!("unexpected {other:?}"),
    }
    match reply_of(IpcAction::DisconnectPort(7), IpcWork::Failed("Port 7 is not exposed".to_string()), "disconnect") {
        Some(Err(m)) => assert_eq!(m, "Port 7 is not exposed"),
        other => panic!("unexpected {other:?}"),
    }
    assert!(matches!(
        reply_of(IpcAction::Disconnect, IpcWork::Failed("not connected".to_string()), "disconnect"),
        Some(Ok(IpcReply::Disconnected))
    ));
}

#[test]
fn unknown_methods_are_refused_by_name() {
    match reply_of(IpcAction::Reject, IpcWork::Done, "reboot") {
        Some(Err(m)) => assert_eq!(m, "Unknown method: reboot"),
        other => panic!("unexpected {other:?}"),
    }
}

#[test]
fn work_of_the_wrong_kind_gives_no_reply() {
    assert!(reply_of(IpcAction::ExposePort, IpcWork::Done, "expose_port").is_none());
    assert!(reply_of(IpcAction::Ping, IpcWork::Ticket("t".to_string()), "ping").is_none());
    assert!(reply_of(IpcAction::StartServing, IpcWork::Status(connected_status()), "start_serving").is_none());
}

#[test]
fn a_failure_in_words_is_answered_with_those_words() {
    assert_eq!(reply_message(Error::Custom("No peer is connected".to_string())), Some("No peer is connected".to_string()));
    assert_eq!(reply_message(Error::UnexpectedStreamHeader(Message::Ping)), None);
    assert_eq!(
        reply_message(Error::UnexpectedMessage { expected: Message::Pong, got: Message::GetPorts }),
        None
    );
}
