//! The local IPC commands: their names, and the error part of a reply.
use vstd::prelude::*;
use vstd::string::StringExecFns;
use crate::daemon::Status;
use crate::error::Error;
use crate::text::{chars_eq, chars_of};
use serde_json::Value;

verus! {

/// A command that a local client asks the daemon to run.
#[derive(Debug, Clone, Copy, PartialEq, Eq, Structural)]
pub enum IpcMethod {
    Ping,
    StartServing,
    Connect,
    ExposePort,
    Status,
    ListForwardedPorts,
    Disconnect,
    Shutdown,
    /// A method name that the daemon does not know.
    Unknown,
}

/// The command a method name names.
pub open spec fn method_of(name: Seq<char>) -> IpcMethod {
    if name == "ping"@ {
        IpcMethod::Ping
    } else if name == "start_serving"@ {
        IpcMethod::StartServing
    } else if name == "connect"@ {
        IpcMethod::Connect
    } else if name == "expose_port"@ {
        IpcMethod::ExposePort
    } else if name == "status"@ {
        IpcMethod::Status
    } else if name == "list_forwarded_ports"@ {
        IpcMethod::ListForwardedPorts
    } else if name == "disconnect"@ {
        IpcMethod::Disconnect
    } else if name == "shutdown"@ {
        IpcMethod::Shutdown
    } else {
        IpcMethod::Unknown
    }
}

/// The name under which a command is sent (none for an unknown one).
pub open spec fn name_of(m: IpcMethod) -> Seq<char> {
    match m {
        IpcMethod::Ping => "ping"@,
        IpcMethod::StartServing => "start_serving"@,
        IpcMethod::Connect => "connect"@,
        IpcMethod::ExposePort => "expose_port"@,
        IpcMethod::Status => "status"@,
        IpcMethod::ListForwardedPorts => "list_forwarded_ports"@,
        IpcMethod::Disconnect => "disconnect"@,
        IpcMethod::Shutdown => "shutdown"@,
        IpcMethod::Unknown => Seq::empty(),
    }
}

fn is_word(name: &Vec<char>, word: &str) -> (b: bool)
    ensures
        b == (name@ == word@),
{
    let w = chars_of(word);
    chars_eq(name, &w)
}

impl IpcMethod {
    /// The command that a request's method name asks for.
    pub fn parse(method: &str) -> (m: IpcMethod)
        ensures
            m == method_of(method@),
            method@ == "ping"@ ==> m == IpcMethod::Ping,
            method@ == "start_serving"@ ==> m == IpcMethod::StartServing,
            method@ == "connect"@ ==> m == IpcMethod::Connect,
            method@ == "expose_port"@ ==> m == IpcMethod::ExposePort,
            method@ == "status"@ ==> m == IpcMethod::Status,
            method@ == "list_forwarded_ports"@ ==> m == IpcMethod::ListForwardedPorts,
            method@ == "disconnect"@ ==> m == IpcMethod::Disconnect,
            method@ == "shutdown"@ ==> m == IpcMethod::Shutdown,
    {
        proof {
            lemma_documented_method_names();
        }
        let name = chars_of(method);
        if is_word(&name, "ping") {
            IpcMethod::Ping
        } else if is_word(&name, "start_serving") {
            IpcMethod::StartServing
        } else if is_word(&name, "connect") {
            IpcMethod::Connect
        } else if is_word(&name, "expose_port") {
            IpcMethod::ExposePort
        } else if is_word(&name, "status") {
            IpcMethod::Status
        } else if is_word(&name, "list_forwarded_ports") {
            IpcMethod::ListForwardedPorts
        } else if is_word(&name, "disconnect") {
            IpcMethod::Disconnect
        } else if is_word(&name, "shutdown") {
            IpcMethod::Shutdown
        } else {
            IpcMethod::Unknown
        }
    }

    /// The method name that a client sends for this command.
    pub fn name(&self) -> (s: String)
        ensures
            s@ == name_of(*self),
            *self == IpcMethod::Ping ==> s@ == "ping"@,
            *self == IpcMethod::StartServing ==> s@ == "start_serving"@,
            *self == IpcMethod::Connect ==> s@ == "connect"@,
            *self == IpcMethod::ExposePort ==> s@ == "expose_port"@,
            *self == IpcMethod::Status ==> s@ == "status"@,
            *self == IpcMethod::ListForwardedPorts ==> s@ == "list_forwarded_ports"@,
            *self == IpcMethod::Disconnect ==> s@ == "disconnect"@,
            *self == IpcMethod::Shutdown ==> s@ == "shutdown"@,
    {
        match self {
            IpcMethod::Ping => String::from_str("ping"),
            IpcMethod::StartServing => String::from_str("start_serving"),
            IpcMethod::Connect => String::from_str("connect"),
            IpcMethod::ExposePort => String::from_str("expose_port"),
            IpcMethod::Status => String::from_str("status"),
            IpcMethod::ListForwardedPorts => String::from_str("list_forwarded_ports"),
            IpcMethod::Disconnect => String::from_str("disconnect"),
            IpcMethod::Shutdown => String::from_str("shutdown"),
            IpcMethod::Unknown => String::new(),
        }
    }

    /// Whether the reply to this command ends the client's session and the
    /// daemon: only `shutdown` replies `{"shutdown": true}`.
    pub fn ends_session(&self) -> (b: bool)
        ensures
            b == (*self == IpcMethod::Shutdown),
    {
        match self {
            IpcMethod::Shutdown => true,
            _ => false,
        }
    }
}

/// Each documented method name is read as the command of that name, and
/// each command is sent under its documented name.
pub proof fn lemma_documented_method_names()
    ensures
        method_of("ping"@) == IpcMethod::Ping,
        method_of("start_serving"@) == IpcMethod::StartServing,
        method_of("connect"@) == IpcMethod::Connect,
        method_of("expose_port"@) == IpcMethod::ExposePort,
        method_of("status"@) == IpcMethod::Status,
        method_of("list_forwarded_ports"@) == IpcMethod::ListForwardedPorts,
        method_of("disconnect"@) == IpcMethod::Disconnect,
        method_of("shutdown"@) == IpcMethod::Shutdown,
        name_of(IpcMethod::Ping) == "ping"@,
        name_of(IpcMethod::StartServing) == "start_serving"@,
        name_of(IpcMethod::Connect) == "connect"@,
        name_of(IpcMethod::ExposePort) == "expose_port"@,
        name_of(IpcMethod::Status) == "status"@,
        name_of(IpcMethod::ListForwardedPorts) == "list_forwarded_ports"@,
        name_of(IpcMethod::Disconnect) == "disconnect"@,
        name_of(IpcMethod::Shutdown) == "shutdown"@,
{
    reveal_strlit("ping");
    reveal_strlit("start_serving");
    reveal_strlit("connect");
    reveal_strlit("expose_port");
    reveal_strlit("status");
    reveal_strlit("list_forwarded_ports");
    reveal_strlit("disconnect");
    reveal_strlit("shutdown");
    assert("ping"@.len() == 4);
    assert("start_serving"@.len() == 13);
    assert("connect"@.len() == 7);
    assert("expose_port"@.len() == 11);
    assert("status"@.len() == 6);
    assert("list_forwarded_ports"@.len() == 20);
    assert("disconnect"@.len() == 10);
    assert("shutdown"@.len() == 8);
}

/// A name sent for a command is read back as that command: the client and
/// the daemon agree on every command's name.
pub proof fn lemma_method_names_round_trip(m: IpcMethod)
    requires
        m != IpcMethod::Unknown,
    ensures
        method_of(name_of(m)) == m,
{
    reveal_strlit("ping");
    reveal_strlit("start_serving");
    reveal_strlit("connect");
    reveal_strlit("expose_port");
    reveal_strlit("status");
    reveal_strlit("list_forwarded_ports");
    reveal_strlit("disconnect");
    reveal_strlit("shutdown");
    assert("ping"@.len() == 4);
    assert("start_serving"@.len() == 13);
    assert("connect"@.len() == 7);
    assert("expose_port"@.len() == 11);
    assert("status"@.len() == 6);
    assert("list_forwarded_ports"@.len() == 20);
    assert("disconnect"@.len() == 10);
    assert("shutdown"@.len() == 8);
}

/// The error part of a reply: a code and a message.
#[derive(Debug)]
pub struct ResponseError {
    pub code: String,
    pub message: String,
}

/// The code of a reply to a command that failed.
pub open spec fn command_failed_code() -> Seq<char> {
    "command_failed"@
}

/// The code of a reply to a line that is no request.
pub open spec fn invalid_request_code() -> Seq<char> {
    "invalid_request"@
}

/// The message for a method that the daemon does not know.
pub open spec fn unknown_method_text(method: Seq<char>) -> Seq<char> {
    "Unknown method: "@ + method
}

impl ResponseError {
    /// An error part with the given code and message.
    pub fn new(code: String, message: String) -> (e: ResponseError)
        ensures
            e.code@ == code@,
            e.message@ == message@,
    {
        ResponseError { code, message }
    }

    /// The error part for a command that failed with the given message.
    pub fn command_failed(message: String) -> (e: ResponseError)
        ensures
            e.code@ == command_failed_code(),
            e.message@ == message@,
    {
        ResponseError { code: String::from_str("command_failed"), message }
    }

    /// The error part for a line that could not be read as a request.
    pub fn invalid_request(message: String) -> (e: ResponseError)
        ensures
            e.code@ == invalid_request_code(),
            e.message@ == message@,
    {
        ResponseError { code: String::from_str("invalid_request"), message }
    }
}

/// The message that a failed request is answered with, for a failure that
/// the library describes in words: those words as they are, with nothing
/// around them. The other failures (a peer's unexpected message) have no
/// such words; for them it gives `None`.
pub fn reply_message(e: Error) -> (s: Option<String>)
    ensures
        match e {
            Error::Custom(m) => s == Some(m),
            _ => s is None,
        },
{
    match e {
        Error::Custom(m) => Some(m),
        _ => None,
    }
}

/// The message for a method name that no command has.
pub fn unknown_method(method: &str) -> (s: String)
    ensures
        s@ == unknown_method_text(method@),
{
    let mut s = String::from_str("Unknown method: ");
    s.append(method);
    s
}

/// What the daemon does for a request.
#[derive(Debug, Clone, Copy, PartialEq, Eq, Structural)]
pub enum IpcAction {
    Ping,
    StartServing,
    Connect,
    ExposePort,
    Status,
    ListForwardedPorts,
    /// Stop forwarding this one port.
    DisconnectPort(u16),
    /// Close the peer connection.
    Disconnect,
    Shutdown,
    /// Refuse a method that the daemon does not know.
    Reject,
}

/// The action for a request with the given method and, for `disconnect`,
/// the port its parameters name.
pub open spec fn action_for(method: IpcMethod, port: Option<u16>) -> IpcAction {
    match method {
        IpcMethod::Ping => IpcAction::Ping,
        IpcMethod::StartServing => IpcAction::StartServing,
        IpcMethod::Connect => IpcAction::Connect,
        IpcMethod::ExposePort => IpcAction::ExposePort,
        IpcMethod::Status => IpcAction::Status,
        IpcMethod::ListForwardedPorts => IpcAction::ListForwardedPorts,
        IpcMethod::Disconnect => match port {
            Some(p) => IpcAction::DisconnectPort(p),
            None => IpcAction::Disconnect,
        },
        IpcMethod::Shutdown => IpcAction::Shutdown,
        IpcMethod::Unknown => IpcAction::Reject,
    }
}

/// Chooses what the daemon does for a request: `disconnect` with a port
/// stops only that port's forwarding, without one it closes the connection.
pub fn plan_request(method: IpcMethod, port: Option<u16>) -> (a: IpcAction)
    ensures
        a == action_for(method, port),
{
    match method {
        IpcMethod::Ping => IpcAction::Ping,
        IpcMethod::StartServing => IpcAction::StartServing,
        IpcMethod::Connect => IpcAction::Connect,
        IpcMethod::ExposePort => IpcAction::ExposePort,
        IpcMethod::Status => IpcAction::Status,
        IpcMethod::ListForwardedPorts => IpcAction::ListForwardedPorts,
        IpcMethod::Disconnect => match port {
            Some(p) => IpcAction::DisconnectPort(p),
            None => IpcAction::Disconnect,
        },
        IpcMethod::Shutdown => IpcAction::Shutdown,
        IpcMethod::Unknown => IpcAction::Reject,
    }
}

/// What the daemon's work for an action gave back.
#[derive(Debug)]
pub enum IpcWork {
    /// The work was done and gave nothing back.
    Done,
    /// The port that was exposed.
    Port(u16),
    /// The ticket of the serving side.
    Ticket(String),
    /// The daemon's status.
    Status(Status),
    /// The work failed with this message.
    Failed(String),
}

/// The result of a request that succeeded, one form per method.
#[derive(Debug)]
pub enum IpcReply {
    /// `{"pong": true}`
    Pong,
    /// `{"ticket": ...}`
    Ticket(String),
    /// `{"connected": true}`
    Connected,
    /// `{"local_port": ...}`
    LocalPort(u16),
    /// The status object.
    Status(Status),
    /// `{"ports": [...]}`
    Ports(Vec<u16>),
    /// `{"port": ..., "forwarded": false}`
    PortDisconnected(u16),
    /// `{"connected": false}`
    Disconnected,
    /// `{"shutdown": true}`
    Shutdown,
}

/// Whether `work` is what the work for `action` can give back: a failure
/// for any action, and otherwise the kind of value that the action yields.
pub open spec fn work_fits(action: IpcAction, work: IpcWork) -> bool {
    match work {
        IpcWork::Failed(_) => true,
        IpcWork::Done => match action {
            IpcAction::StartServing | IpcAction::ExposePort | IpcAction::Status
            | IpcAction::ListForwardedPorts => false,
            _ => true,
        },
        IpcWork::Port(_) => action == IpcAction::ExposePort,
        IpcWork::Ticket(_) => action == IpcAction::StartServing,
        IpcWork::Status(_) => action == IpcAction::Status || action == IpcAction::ListForwardedPorts,
    }
}

/// Whether `r` answers a request named `method` whose action and work were
/// `action` and `work` (a work that fits the action). An unknown method is
/// refused with its name; closing the connection and shutting down always
/// succeed, whatever their work gave; any other action fails with its work's
/// message, or succeeds with the result that its work gave.
pub open spec fn reply_is(action: IpcAction, work: IpcWork, method: Seq<char>, r: Result<IpcReply, String>) -> bool {
    match action {
        IpcAction::Reject => r matches Err(m) && m@ == unknown_method_text(method),
        IpcAction::Disconnect => r matches Ok(IpcReply::Disconnected),
        IpcAction::Shutdown => r matches Ok(IpcReply::Shutdown),
        _ => match work {
            IpcWork::Failed(m) => r == Err::<IpcReply, String>(m),
            IpcWork::Done => match action {
                IpcAction::Ping => r matches Ok(IpcReply::Pong),
                IpcAction::Connect => r matches Ok(IpcReply::Connected),
                IpcAction::DisconnectPort(p) => r matches Ok(IpcReply::PortDisconnected(q)) && q == p,
                _ => false,
            },
            IpcWork::Port(p) => r matches Ok(IpcReply::LocalPort(q)) && q == p,
            IpcWork::Ticket(t) => r == Ok::<IpcReply, String>(IpcReply::Ticket(t)),
            IpcWork::Status(st) => if action == IpcAction::Status {
                r == Ok::<IpcReply, String>(IpcReply::Status(st))
            } else {
                r matches Ok(IpcReply::Ports(v)) && v@ == st.forwarded_ports@
            },
        },
    }
}

/// The answer to a request named `method`, given its action and what the
/// work for it gave back; `None` when the work is not of the kind that the
/// action yields.
pub fn reply_of(action: IpcAction, work: IpcWork, method: &str) -> (r: Option<Result<IpcReply, String>>)
    ensures
        r is Some <==> work_fits(action, work),
        r matches Some(answer) ==> reply_is(action, work, method@, answer),
{
    if !fits(action, &work) {
        return None;
    }
    let answer = match action {
        IpcAction::Reject => Err(unknown_method(method)),
        IpcAction::Disconnect => Ok(IpcReply::Disconnected),
        IpcAction::Shutdown => Ok(IpcReply::Shutdown),
        _ => match work {
            IpcWork::Failed(m) => Err(m),
            IpcWork::Done => match action {
                IpcAction::Ping => Ok(IpcReply::Pong),
                IpcAction::Connect => Ok(IpcReply::Connected),
                IpcAction::DisconnectPort(p) => Ok(IpcReply::PortDisconnected(p)),
                _ => {
                    // `fits` has ruled this pair out.
                    assert(false);
                    return None;
                },
            },
            IpcWork::Port(p) => Ok(IpcReply::LocalPort(p)),
            IpcWork::Ticket(t) => Ok(IpcReply::Ticket(t)),
            IpcWork::Status(st) => if action == IpcAction::Status {
                Ok(IpcReply::Status(st))
            } else {
                Ok(IpcReply::Ports(st.forwarded_ports))
            },
        },
    };
    Some(answer)
}

fn fits(action: IpcAction, work: &IpcWork) -> (b: bool)
    ensures
        b == work_fits(action, *work),
{
    match work {
        IpcWork::Failed(_) => true,
        IpcWork::Done => match action {
            IpcAction::StartServing | IpcAction::ExposePort | IpcAction::Status
            | IpcAction::ListForwardedPorts => false,
            _ => true,
        },
        IpcWork::Port(_) => action == IpcAction::ExposePort,
        IpcWork::Ticket(_) => action == IpcAction::StartServing,
        IpcWork::Status(_) => action == IpcAction::Status || action == IpcAction::ListForwardedPorts,
    }
}

#[verifier::external_type_specification]
#[verifier::external_body]
pub struct ExValue(Value);

/// A request from a local client: an optional id that the reply echoes, the
/// method name, and the method's parameters.
#[derive(Debug)]
pub struct Request {
    pub id: Option<Value>,
    pub method: String,
    pub params: Value,
}

/// A reply to a local client: with `ok`, a result and no error; without, an
/// error and no result.
#[derive(Debug)]
pub struct Response {
    pub id: Option<Value>,
    pub ok: bool,
    pub result: Option<Value>,
    pub error: Option<ResponseError>,
}

/// The reply's shape: `ok` exactly when it has a result, and an error
/// exactly when it is not `ok`.
pub open spec fn well_shaped(r: Response) -> bool {
    &&& r.ok <==> r.result is Some
    &&& r.ok <==> r.error is None
}

impl Response {
    /// The successful reply with the given result.
    pub fn success(id: Option<Value>, result: Value) -> (r: Response)
        ensures
            r.id == id,
            r.ok,
            r.result == Some(result),
            r.error is None,
            well_shaped(r),
    {
        Response { id, ok: true, result: Some(result), error: None }
    }

    /// The failed reply with the given error part.
    pub fn failure(id: Option<Value>, error: ResponseError) -> (r: Response)
        ensures
            r.id == id,
            !r.ok,
            r.result is None,
            r.error == Some(error),
            well_shaped(r),
    {
        Response { id, ok: false, result: None, error: Some(error) }
    }

    /// The reply to a command: its result, or its failure's message under the
    /// code `command_failed`.
    pub fn of_outcome(id: Option<Value>, outcome: Result<Value, String>) -> (r: Response)
        ensures
            r.id == id,
            well_shaped(r),
            match outcome {
                Ok(v) => r.result == Some(v),
                Err(m) => r.error matches Some(e) && e.code@ == command_failed_code() && e.message@ == m@,
            },
    {
        match outcome {
            Ok(v) => Response::success(id, v),
            Err(m) => Response::failure(id, ResponseError::command_failed(m)),
        }
    }
}

} // verus!
