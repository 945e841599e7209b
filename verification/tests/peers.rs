use devptp::commands::{tunnel_accepted, IncomingCommand, InnerProtocol};
use devptp::error::Error;
use devptp::peer::{expect_message, forward_port, known_ports_reply, plan_uni_message, ExposedPorts, UniAction};
use devptp::protocol::Message;
use devptp::tunnel::{Tunnel, TunnelConfig, TunnelError, TunnelProtocol};
use devptp::tunnel_request::Request;
use devptp::tunnel_response::Response;
use std::collections::BTreeSet;

#[test]
fn a_port_is_exposed_once_until_unexposed() {
    let mut e = ExposedPorts::new();
    assert!(e.expose_port(8080).is_ok());
    match e.expose_port(8080) {
        Err(Error::Custom(m)) => assert_eq!(m, "Port 8080 is already exposed"),
        other => panic!("unexpected {other:?}"),
    }
    assert!(e.expose_port(22).is_ok());
    assert_eq!(e.exposed_ports(), vec![22, 8080]);
    assert!(e.unexpose_port(8080).is_ok());
    match e.unexpose_port(8080) {
        Err(Error::Custom(m)) => assert_eq!(m, "Port 8080 is not exposed"),
        other => panic!("unexpected {other:?}"),
    }
    assert!(e.expose_port(8080).is_ok());
    assert_eq!(e.shutdown(), vec![22, 8080]);
    assert!(e.exposed_ports().is_empty());
}

#[test]
fn messages_are_planned() {
    assert!(matches!(plan_uni_message(Message::Ping, false), UniAction::Report));
    assert!(matches!(plan_uni_message(Message::Pong, true), UniAction::Report));
    assert!(matches!(plan_uni_message(Message::Text { value: "hi".into() }, true), UniAction::Report));
    assert!(matches!(plan_uni_message(Message::ExposeTcp { local_port: 5 }, false), UniAction::Expose(v) if v == vec![5]));
    assert!(matches!(plan_uni_message(Message::UnexposeTcp { local_port: 6 }, false), UniAction::Unexpose(v) if v == vec![6]));
    assert!(matches!(plan_uni_message(Message::NewKnownPorts { value: vec![1, 2] }, false), UniAction::Expose(v) if v == vec![1, 2]));
    assert!(matches!(plan_uni_message(Message::KnownPorts { value: vec![3] }, false), UniAction::Expose(v) if v == vec![3]));
    assert!(matches!(plan_uni_message(Message::NewRemovedPorts { value: vec![4] }, false), UniAction::Unexpose(v) if v == vec![4]));
    assert!(matches!(plan_uni_message(Message::GetPorts, true), UniAction::SendKnownPorts));
    assert!(matches!(plan_uni_message(Message::GetPorts, false), UniAction::Ignore));
    assert!(matches!(plan_uni_message(Message::ForwardTcp { port: 1 }, true), UniAction::Ignore));
}

#[test]
fn known_ports_are_sent_only_when_there_are_some() {
    assert!(known_ports_reply(&BTreeSet::new()).is_none());
    let ports: BTreeSet<u16> = [9000, 80].into_iter().collect();
    assert!(matches!(known_ports_reply(&ports), Some(Message::KnownPorts { value }) if value == vec![80, 9000]));
}

#[test]
fn streams_must_begin_with_a_forward_request() {
    assert_eq!(forward_port(Message::ForwardTcp { port: 8083 }).unwrap(), 8083);
    assert!(matches!(forward_port(Message::Ping), Err(Error::UnexpectedStreamHeader(Message::Ping))));
}

#[test]
fn the_due_message_is_expected() {
    assert!(matches!(expect_message(Message::Pong, Message::Pong), Ok(Message::Pong)));
    assert!(matches!(
        expect_message(Message::Pong, Message::Ping),
        Err(Error::UnexpectedMessage { expected: Message::Pong, got: Message::Ping })
    ));
    assert!(Message::KnownPorts { value: vec![1] }.equals(&Message::KnownPorts { value: vec![1] }));
    assert!(!Message::KnownPorts { value: vec![1] }.equals(&Message::KnownPorts { value: vec![2] }));
    assert!(!Message::KnownPorts { value: vec![1] }.equals(&Message::NewKnownPorts { value: vec![1] }));
    assert!(Message::Text { value: "a".into() }.equals(&Message::Text { value: "a".into() }));
    assert!(!Message::Text { value: "a".into() }.equals(&Message::Text { value: "b".into() }));
}

#[test]
fn echo_sends_back_what_it_got() {
    assert!(Tunnel::new(true).is_echo());
    assert!(!Tunnel::new(false).is_echo());
    assert_eq!(Tunnel::echo_reply(b"hello".to_vec()).unwrap(), b"hello".to_vec());
    let err = Tunnel::echo_reply(Vec::new()).unwrap_err();
    assert!(matches!(err, TunnelError::EmptyPayload));
    assert_eq!(err.message(), "empty payload");
}

#[test]
fn only_allowed_ports_are_tunnelled() {
    let t = TunnelProtocol::new(&TunnelConfig { allowed_ports: vec![8000, 3000] });
    assert!(t.port_allowed(8000));
    assert!(!t.port_allowed(8001));
    assert_eq!(t.decide_request(Request::Open { port: 3000 }).unwrap(), 3000);
    match t.decide_request(Request::Open { port: 22 }) {
        Err(Response::Error { message }) => assert_eq!(message, "port 22 is not allowed"),
        other => panic!("unexpected {other:?}"),
    }
}

#[test]
fn commands_from_the_server() {
    assert!(matches!(InnerProtocol::NewPort { port: 7 }.response(), Response::Port(7)));
    assert_eq!(IncomingCommand::from_response(Response::Okay), Some(IncomingCommand::Acknowledged));
    assert_eq!(IncomingCommand::from_response(Response::Port(9)), Some(IncomingCommand::ProposedPort { port: 9 }));
    assert_eq!(IncomingCommand::from_response(Response::Error { message: "x".into() }), None);
    assert!(tunnel_accepted(&Response::Okay));
    assert!(!tunnel_accepted(&Response::Port(1)));
    assert!(!tunnel_accepted(&Response::Error { message: String::new() }));
}

fn outcome_text(r: &Result<(), Error>) -> Option<String> {
    match r {
        Ok(()) => None,
        Err(Error::Custom(m)) => Some(m.clone()),
        Err(other) => panic!("unexpected {other:?}"),
    }
}

#[test]
fn a_list_of_ports_is_applied_in_order() {
    let mut e = ExposedPorts::new();
    let outcomes = e.apply(&UniAction::Expose(vec![1, 2, 1]));
    let texts: Vec<Option<String>> = outcomes.iter().map(outcome_text).collect();
    assert_eq!(texts, vec![None, None, Some("Port 1 is already exposed".to_string())]);
    assert_eq!(e.exposed_ports(), vec![1, 2]);

    let outcomes = e.apply(&UniAction::Unexpose(vec![2, 3, 2]));
    let texts: Vec<Option<String>> = outcomes.iter().map(outcome_text).collect();
    assert_eq!(
        texts,
        vec![None, Some("Port 3 is not exposed".to_string()), Some("Port 2 is not exposed".to_string())]
    );
    assert_eq!(e.exposed_ports(), vec![1]);

    assert!(e.apply(&UniAction::Report).is_empty());
    assert!(e.apply(&UniAction::SendKnownPorts).is_empty());
    assert_eq!(e.exposed_ports(), vec![1]);
}

#[test]
fn known_ports_message_forwards_every_listed_port() {
    let mut e = ExposedPorts::new();
    let action = plan_uni_message(Message::KnownPorts { value: vec![3000, 8080] }, false);
    let outcomes = e.apply(&action);
    assert!(outcomes.iter().all(|o| o.is_ok()));
    assert_eq!(e.exposed_ports(), vec![3000, 8080]);
    let action = plan_uni_message(Message::NewRemovedPorts { value: vec![3000] }, false);
    e.apply(&action);
    assert_eq!(e.exposed_ports(), vec![8080]);
}
