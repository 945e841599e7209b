//! The response line of the tunnel and command streams: `OK`, `ERR <message>`
//! or `PORT <port>`.
use vstd::prelude::*;
use crate::protocol_error::Error;
use vstd::string::StringExecFns;
use crate::text::{
    chars_eq, debug_quote, debug_quoted, chars_of, decimal, extend_chars, format_radix_chars,
    lemma_format_radix_chars, lemma_format_radix_value, parse_unsigned, parse_unsigned_chars,
    string_of, strip_prefix, strip_prefix_chars, trim_line_end, trim_line_end_chars,
};

verus! {

/// A response line.
#[derive(Debug)]
pub enum Response {
    Okay,
    Error { message: String },
    Port(u16),
}

pub open spec fn ok_word() -> Seq<char> {
    seq!['O', 'K']
}

pub open spec fn err_word() -> Seq<char> {
    seq!['E', 'R', 'R']
}

pub open spec fn err_prefix() -> Seq<char> {
    seq!['E', 'R', 'R', ' ']
}

pub open spec fn port_prefix() -> Seq<char> {
    seq!['P', 'O', 'R', 'T', ' ']
}

/// The message with every carriage return and line feed turned into a space,
/// so that it stays on one line.
pub open spec fn one_line(message: Seq<char>) -> Seq<char> {
    message.map_values(|c: char| if c == '\r' || c == '\n' { ' ' } else { c })
}

/// The error message that a line closed before any response yields.
pub open spec fn closed_message() -> Seq<char> {
    "connection closed before a tunnel response was received"@
}

/// The line written for a response, newline included.
pub open spec fn response_line(r: Response) -> Seq<char> {
    match r {
        Response::Okay => ok_word() + seq!['\n'],
        Response::Error { message } => err_prefix() + one_line(message@) + seq!['\n'],
        Response::Port(port) => port_prefix() + decimal(port as nat) + seq!['\n'],
    }
}

/// Whether `r` is what reading the received `line` gives. An empty line means
/// that the stream ended before a response.
pub open spec fn response_read_as(line: Seq<char>, r: Result<Response, Error>) -> bool {
    let l = trim_line_end(line);
    if line.len() == 0 {
        r matches Err(Error::Custom(m)) && m@ == closed_message()
    } else if l == ok_word() {
        r matches Ok(Response::Okay)
    } else if strip_prefix(l, err_prefix()) is Some {
        r matches Ok(Response::Error { message }) && message@ == strip_prefix(l, err_prefix())->0
    } else if l == err_word() {
        r matches Ok(Response::Error { message }) && message@ == Seq::<char>::empty()
    } else if strip_prefix(l, port_prefix()) is Some {
        let text = strip_prefix(l, port_prefix())->0;
        match parse_unsigned(text, 10, 0xffff) {
            Some(v) => r matches Ok(Response::Port(p)) && p as nat == v,
            None => r matches Err(Error::PortParseError { port }) && port@ == text,
        }
    } else {
        r matches Err(Error::Custom(m)) && m@ == invalid_response_message(l)
    }
}

/// The error message for a line that matches none of the response forms:
/// the line, without its ending, in std's quoted `Debug` form.
pub open spec fn invalid_response_message(l: Seq<char>) -> Seq<char> {
    "invalid tunnel response: "@ + debug_quoted(l)
}

fn one_line_chars(message: &String) -> (r: Vec<char>)
    ensures
        r@ == one_line(message@),
{
    let m = chars_of(message.as_str());
    let mut r: Vec<char> = Vec::new();
    let mut i: usize = 0;
    while i < m.len()
        invariant
            i <= m@.len(),
            m@ == message@,
            r@ == one_line(m@.subrange(0, i as int)),
        decreases m@.len() - i,
    {
        let c = m[i];
        r.push(if c == '\r' || c == '\n' { ' ' } else { c });
        assert(r@ =~= one_line(m@.subrange(0, i + 1)));
        i = i + 1;
    }
    assert(m@.subrange(0, i as int) =~= m@);
    r
}

impl Response {
    /// The line to write for this response.
    pub fn to_line(&self) -> (s: String)
        ensures
            s@ == response_line(*self),
    {
        let mut v: Vec<char>;
        match self {
            Response::Okay => {
                v = vec!['O', 'K'];
            },
            Response::Error { message } => {
                v = vec!['E', 'R', 'R', ' '];
                let body = one_line_chars(message);
                extend_chars(&mut v, &body);
            },
            Response::Port(port) => {
                v = vec!['P', 'O', 'R', 'T', ' '];
                let digits = format_radix_chars(*port as u64, 10);
                extend_chars(&mut v, &digits);
            },
        }
        v.push('\n');
        string_of(&v)
    }

    /// Reads a response from the line received (empty when the stream ended).
    pub fn from_line(line: &str) -> (r: Result<Response, Error>)
        ensures
            response_read_as(line@, r),
    {
        let chars = chars_of(line);
        if chars.len() == 0 {
            return Err(Error::Custom("connection closed before a tunnel response was received".to_string()));
        }
        let l = trim_line_end_chars(&chars);
        let ok: Vec<char> = vec!['O', 'K'];
        if chars_eq(&l, &ok) {
            return Ok(Response::Okay);
        }
        let err_p: Vec<char> = vec!['E', 'R', 'R', ' '];
        if let Some(message) = strip_prefix_chars(&l, &err_p) {
            return Ok(Response::Error { message: string_of(&message) });
        }
        let err: Vec<char> = vec!['E', 'R', 'R'];
        if chars_eq(&l, &err) {
            return Ok(Response::Error { message: String::new() });
        }
        let port_p: Vec<char> = vec!['P', 'O', 'R', 'T', ' '];
        if let Some(text) = strip_prefix_chars(&l, &port_p) {
            return match parse_unsigned_chars(&text, 10, 0xffff) {
                Some(p) => Ok(Response::Port(p as u16)),
                None => Err(Error::PortParseError { port: string_of(&text) }),
            };
        }
        let text = string_of(&l);
        let quoted = debug_quote(text.as_str());
        let mut message = String::from_str("invalid tunnel response: ");
        message.append(quoted.as_str());
        Err(Error::Custom(message))
    }
}

proof fn lemma_trim_line_end_of_line(body: Seq<char>)
    requires
        body.len() > 0,
        body.last() != '\r' && body.last() != '\n',
    ensures
        trim_line_end(body + seq!['\n']) == body,
{
    let s = body + seq!['\n'];
    assert(s.drop_last() =~= body);
    assert(s.last() == '\n');
    assert(trim_line_end(s) == trim_line_end(s.drop_last()));
    assert(trim_line_end(body) == body);
}

/// Whether `got` is the response `sent`, read back from its line: the same
/// response, with an error message's line breaks turned into spaces.
pub open spec fn same_response(got: Response, sent: Response) -> bool {
    match (got, sent) {
        (Response::Okay, Response::Okay) => true,
        (Response::Port(a), Response::Port(b)) => a == b,
        (Response::Error { message: a }, Response::Error { message: b }) => a@ == one_line(b@),
        _ => false,
    }
}

proof fn lemma_one_line_shape(m: Seq<char>)
    ensures
        one_line(m).len() == m.len(),
        forall|i: int| 0 <= i < m.len() ==> #[trigger] one_line(m)[i] != '\r' && one_line(m)[i] != '\n',
{
}

/// A written response line, read back, gives the response that was written
/// (an error message with its line breaks turned into spaces).
pub proof fn lemma_response_round_trip(sent: Response, back: Result<Response, Error>)
    requires
        response_read_as(response_line(sent), back),
    ensures
        back matches Ok(got) && same_response(got, sent),
{
    let line = response_line(sent);
    match sent {
        Response::Okay => {
            lemma_trim_line_end_of_line(ok_word());
        },
        Response::Error { message } => {
            let body = err_prefix() + one_line(message@);
            lemma_one_line_shape(message@);
            if one_line(message@).len() > 0 {
                assert(body.last() == one_line(message@).last());
            }
            lemma_trim_line_end_of_line(body);
            assert(line =~= body + seq!['\n']);
            assert(body[0] == 'E');
            assert(trim_line_end(line) != ok_word());
            assert(body.subrange(0, 4) =~= err_prefix());
            assert(body.subrange(4, body.len() as int) =~= one_line(message@));
        },
        Response::Port(port) => {
            let digits = decimal(port as nat);
            lemma_format_radix_value(port as nat, 10);
            lemma_format_radix_chars(port as nat, 10);
            let body = port_prefix() + digits;
            assert(body.last() == digits[digits.len() - 1]);
            lemma_trim_line_end_of_line(body);
            assert(line =~= body + seq!['\n']);
            assert(body[0] == 'P');
            assert(trim_line_end(line) != ok_word());
            assert(trim_line_end(line) != err_word());
            assert(body.subrange(0, 4) != err_prefix());
            assert(body.subrange(0, 5) =~= port_prefix());
            assert(body.subrange(5, body.len() as int) =~= digits);
        },
    }
}

} // verus!
