use devptp::config::{config_decision, config_source, ConfigDecision, ConfigSource};
use devptp::daemon::{DaemonState, Role};
use devptp::error::Error;
use devptp::ipc::{unknown_method, IpcMethod, Response, ResponseError};
use serde_json::Value;

fn custom_text(r: Result<(), Error>) -> String {
    match r {
        Err(Error::Custom(m)) => m,
        other => panic!("unexpected {other:?}"),
    }
}

fn valid_ticket() -> String {
    let key = iroh::SecretKey::from_bytes(&[7u8; 32]);
    let addr = iroh::EndpointAddr::new(key.public());
    iroh_tickets::endpoint::EndpointTicket::new(addr).to_string()
}

#[test]
fn a_fresh_daemon_is_idle() {
    let s = DaemonState::new();
    assert_eq!(s.role, Role::Idle);
    assert!(!s.router_running);
    assert!(!s.client_connected);
    assert_eq!(custom_text(s.check_ping()), "No peer is connected");
    assert_eq!(custom_text(s.check_ticket()), "Router not set");
    assert_eq!(custom_text(s.check_expose()), "expose_port is only available on a serving daemon");
}

#[test]
fn connecting_needs_an_idle_daemon_and_a_ticket() {
    let mut s = DaemonState::new();
    match s.begin_connect("not a ticket") {
        Err(Error::Custom(m)) => assert_eq!(m, "Bad ticket"),
        _ => panic!("bad ticket accepted"),
    }
    assert!(s.begin_connect(&valid_ticket()).is_ok());
    s.connected();
    assert_eq!(s.role, Role::Connecting);
    assert!(s.client_connected);
    assert!(s.check_ping().is_ok());
    assert!(s.check_disconnect_port().is_ok());
    match s.begin_connect(&valid_ticket()) {
        Err(Error::Custom(m)) => assert_eq!(m, "connect is only available on an idle daemon"),
        _ => panic!("second connect accepted"),
    }
    assert_eq!(custom_text(s.check_serve(true)), "A connecting daemon cannot start serving");
    assert_eq!(s.disconnect().unwrap(), true);
    assert_eq!(s.role, Role::Idle);
    assert!(!s.client_connected);
    match s.disconnect() {
        Err(Error::Custom(m)) => assert_eq!(m, "disconnect is only available on a connecting daemon"),
        _ => panic!("disconnect of an idle daemon accepted"),
    }
    assert_eq!(
        custom_text(s.check_disconnect_port()),
        "Only a connecting daemon can disconnect a forwarded port"
    );
}

#[test]
fn serving_starts_once() {
    let mut s = DaemonState::new();
    assert_eq!(custom_text(s.check_serve(false)), "start_serving is only supported on Linux");
    assert!(s.check_serve(true).is_ok());
    assert!(s.start_serving().is_ok());
    assert_eq!(s.role, Role::Serving);
    assert!(s.router_running);
    assert!(s.check_ticket().is_ok());
    assert!(s.check_expose().is_ok());
    assert!(s.check_serve(true).is_ok());
    assert_eq!(custom_text(s.start_serving()), "Router already exists");
    assert!(!s.shutdown());
    assert!(!s.router_running);
}

#[test]
fn status_reports_by_role() {
    let mut s = DaemonState::new();
    s.start_serving().unwrap();
    let st = s.status(2, Some("ticket".to_string()), vec![1], vec![8080]);
    assert!(st.running && st.serving && st.connected);
    assert_eq!(st.role, Role::Serving);
    assert_eq!(st.ticket.as_deref(), Some("ticket"));
    assert!(st.forwarded_ports.is_empty());
    assert_eq!(st.available_ports, vec![8080]);
    let st = s.status(0, None, vec![], vec![]);
    assert!(!st.connected);

    let mut c = DaemonState::new();
    c.connected();
    let st = c.status(0, Some("ignored".to_string()), vec![8083], vec![1]);
    assert!(st.connected && !st.serving);
    assert_eq!(st.role, Role::Connecting);
    assert!(st.ticket.is_none());
    assert_eq!(st.forwarded_ports, vec![8083]);
    assert!(st.available_ports.is_empty());

    let st = DaemonState::new().status(5, None, vec![1], vec![1]);
    assert!(!st.connected && !st.serving);
    assert!(st.forwarded_ports.is_empty() && st.available_ports.is_empty());
}

#[test]
fn shutdown_drops_the_connection() {
    let mut s = DaemonState::new();
    s.connected();
    assert!(s.shutdown());
    assert_eq!(s.role, Role::Idle);
    assert!(!s.client_connected);
}

#[test]
fn method_names_round_trip() {
    let all = [
        IpcMethod::Ping,
        IpcMethod::StartServing,
        IpcMethod::Connect,
        IpcMethod::ExposePort,
        IpcMethod::Status,
        IpcMethod::ListForwardedPorts,
        IpcMethod::Disconnect,
        IpcMethod::Shutdown,
    ];
    for m in all {
        assert_eq!(IpcMethod::parse(&m.name()), m);
        assert_eq!(m.ends_session(), m == IpcMethod::Shutdown);
    }
    assert_eq!(IpcMethod::parse("start_serving"), IpcMethod::StartServing);
    assert_eq!(IpcMethod::parse("list_forwarded_ports"), IpcMethod::ListForwardedPorts);
    assert_eq!(IpcMethod::parse("Ping"), IpcMethod::Unknown);
    assert_eq!(IpcMethod::parse(""), IpcMethod::Unknown);
    assert_eq!(unknown_method("reboot"), "Unknown method: reboot");
}

#[test]
fn error_parts_carry_their_codes() {
    let e = ResponseError::command_failed("No peer is connected".to_string());
    assert_eq!(e.code, "command_failed");
    assert_eq!(e.message, "No peer is connected");
    let e = ResponseError::invalid_request("bad json".to_string());
    assert_eq!(e.code, "invalid_request");
    let e = ResponseError::new("x".to_string(), "y".to_string());
    assert_eq!((e.code.as_str(), e.message.as_str()), ("x", "y"));
}

#[test]
fn configuration_place_is_chosen_in_order() {
    let s = |v: &str| Some(v.to_string());
    assert!(matches!(config_source(s("/etc/d.toml"), true, s("/x"), s("/h")), Some(ConfigSource::Explicit(p)) if p == "/etc/d.toml"));
    assert!(matches!(config_source(None, true, s("/x"), s("/h")), Some(ConfigSource::Local)));
    assert!(matches!(config_source(None, false, s("/x"), s("/h")), Some(ConfigSource::XdgConfigHome(p)) if p == "/x"));
    assert!(matches!(config_source(None, false, None, s("/h")), Some(ConfigSource::Home(p)) if p == "/h"));
    assert!(config_source(None, false, None, None).is_none());
    assert_eq!(ConfigSource::Home("/h".into()).file_below(), ".config/devptp/config.toml");
    assert_eq!(ConfigSource::XdgConfigHome("/x".into()).file_below(), "devptp/config.toml");
    assert_eq!(ConfigSource::Local.file_below(), ".devptp.toml");
    assert_eq!(ConfigSource::Explicit("/e".into()).file_below(), "");

    assert_eq!(config_decision(&None, false), ConfigDecision::UseDefault);
    assert_eq!(config_decision(&Some(ConfigSource::Explicit("/e".into())), false), ConfigDecision::NotFound);
    assert_eq!(config_decision(&Some(ConfigSource::Explicit("/e".into())), true), ConfigDecision::Read);
    assert_eq!(config_decision(&Some(ConfigSource::Home("/h".into())), false), ConfigDecision::UseDefault);
    assert_eq!(config_decision(&Some(ConfigSource::Local), true), ConfigDecision::Read);
}

#[test]
fn replies_have_their_shape() {
    let one = Value::from(1);
    let pong = Value::from("pong");
    let r = Response::success(Some(one.clone()), pong.clone());
    assert!(r.ok && r.error.is_none());
    assert_eq!(r.result, Some(pong.clone()));
    assert_eq!(r.id, Some(one));
    let r = Response::failure(None, ResponseError::invalid_request("bad".to_string()));
    assert!(!r.ok && r.result.is_none());
    assert_eq!(r.error.as_ref().unwrap().code, "invalid_request");
    let r = Response::of_outcome(Some(Value::from("a")), Err("Router not set".to_string()));
    assert!(!r.ok);
    let e = r.error.unwrap();
    assert_eq!((e.code.as_str(), e.message.as_str()), ("command_failed", "Router not set"));
    let r = Response::of_outcome(None, Ok(Value::Bool(true)));
    assert!(r.ok && r.result == Some(Value::Bool(true)));
}

#[test]
fn the_ticket_given_back_is_the_one_in_the_text() {
    let s = DaemonState::new();
    let key = iroh::SecretKey::from_bytes(&[9u8; 32]);
    let text = iroh_tickets::endpoint::EndpointTicket::new(iroh::EndpointAddr::new(key.public())).to_string();
    let ticket = s.begin_connect(&text).expect("a valid ticket");
    assert_eq!(ticket.endpoint_addr().id, key.public());
    assert_eq!(ticket.to_string(), text);
    assert_ne!(ticket.to_string(), valid_ticket());
}
