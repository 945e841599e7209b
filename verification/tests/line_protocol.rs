use devptp::protocol_error::Error;
use devptp::tunnel_request::Request;
use devptp::tunnel_response::Response;

#[test]
fn open_request_is_written_as_one_line() {
    assert_eq!(Request::Open { port: 8080 }.to_line(), "OPEN 8080\n");
    assert_eq!(Request::Open { port: 0 }.to_line(), "OPEN 0\n");
    assert_eq!(Request::Open { port: 65535 }.to_line(), "OPEN 65535\n");
}

#[test]
fn open_request_is_read_back() {
    for port in [0u16, 1, 9, 10, 22, 443, 8080, 65535] {
        let line = Request::Open { port }.to_line();
        assert_eq!(Request::from_line(&line).unwrap(), Request::Open { port });
    }
}

#[test]
fn open_request_line_is_trimmed_and_may_carry_a_plus() {
    assert_eq!(Request::from_line("  OPEN 3000 \r\n").unwrap(), Request::Open { port: 3000 });
    assert_eq!(Request::from_line("OPEN +5").unwrap(), Request::Open { port: 5 });
    assert_eq!(Request::from_line("OPEN 007").unwrap(), Request::Open { port: 7 });
}

#[test]
fn bad_open_requests_report_the_port_text() {
    match Request::from_line("OPEN 70000\n") {
        Err(Error::PortParseError { port }) => assert_eq!(port, "70000"),
        other => panic!("unexpected {other:?}"),
    }
    match Request::from_line("OPEN -1") {
        Err(Error::PortParseError { port }) => assert_eq!(port, "-1"),
        other => panic!("unexpected {other:?}"),
    }
    match Request::from_line("OPEN ") {
        Err(Error::PortParseError { port }) => assert_eq!(port, "UNKNOWN"),
        other => panic!("unexpected {other:?}"),
    }
    match Request::from_line("CLOSE 80") {
        Err(Error::PortParseError { port }) => assert_eq!(port, "UNKNOWN"),
        other => panic!("unexpected {other:?}"),
    }
    match Request::from_line("") {
        Err(Error::PortParseError { port }) => assert_eq!(port, "UNKNOWN"),
        other => panic!("unexpected {other:?}"),
    }
}

#[test]
fn responses_are_written_as_one_line() {
    assert_eq!(Response::Okay.to_line(), "OK\n");
    assert_eq!(Response::Port(22).to_line(), "PORT 22\n");
    assert_eq!(Response::Error { message: "no\r\nway".to_string() }.to_line(), "ERR no  way\n");
    assert_eq!(Response::Error { message: String::new() }.to_line(), "ERR \n");
}

#[test]
fn responses_are_read_back() {
    assert!(matches!(Response::from_line("OK\n").unwrap(), Response::Okay));
    assert!(matches!(Response::from_line("OK\r\n\r\n").unwrap(), Response::Okay));
    assert!(matches!(Response::from_line("PORT 8083\n").unwrap(), Response::Port(8083)));
    match Response::from_line("ERR port 9 is not allowed\n").unwrap() {
        Response::Error { message } => assert_eq!(message, "port 9 is not allowed"),
        other => panic!("unexpected {other:?}"),
    }
    match Response::from_line("ERR").unwrap() {
        Response::Error { message } => assert_eq!(message, ""),
        other => panic!("unexpected {other:?}"),
    }
    let sent = Response::Error { message: "line\nbreak".to_string() };
    match Response::from_line(&sent.to_line()).unwrap() {
        Response::Error { message } => assert_eq!(message, "line break"),
        other => panic!("unexpected {other:?}"),
    }
    for port in [0u16, 1, 65535] {
        assert!(matches!(Response::from_line(&Response::Port(port).to_line()).unwrap(), Response::Port(p) if p == port));
    }
}

#[test]
fn bad_responses_are_errors() {
    match Response::from_line("") {
        Err(Error::Custom(m)) => assert_eq!(m, "connection closed before a tunnel response was received"),
        other => panic!("unexpected {other:?}"),
    }
    match Response::from_line("PORT http\n") {
        Err(Error::PortParseError { port }) => assert_eq!(port, "http"),
        other => panic!("unexpected {other:?}"),
    }
    match Response::from_line("HELLO there\r\n") {
        Err(Error::Custom(m)) => assert_eq!(m, "invalid tunnel response: \"HELLO there\""),
        other => panic!("unexpected {other:?}"),
    }
    match Response::from_line("ok\n") {
        Err(Error::Custom(m)) => assert_eq!(m, "invalid tunnel response: \"ok\""),
        other => panic!("unexpected {other:?}"),
    }
}

#[test]
fn unknown_response_line_is_reported_quoted() {
    match Response::from_line("HELLO\n") {
        Err(Error::Custom(m)) => assert_eq!(m, "invalid tunnel response: \"HELLO\""),
        other => panic!("unexpected {other:?}"),
    }
    match Response::from_line("say \"hi\"\n") {
        Err(Error::Custom(m)) => assert_eq!(m, "invalid tunnel response: \"say \\\"hi\\\"\""),
        other => panic!("unexpected {other:?}"),
    }
}
