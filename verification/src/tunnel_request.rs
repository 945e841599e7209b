//! The request line that opens a tunnel stream: `OPEN <port>`.
use vstd::prelude::*;
use crate::protocol_error::Error;
use crate::text::{
    chars_of, decimal, extend_chars, format_radix_chars, is_white_space,
    lemma_format_radix_chars, lemma_format_radix_value, parse_unsigned, parse_unsigned_chars,
    string_of, strip_prefix, strip_prefix_chars, trim, trim_chars, trim_end, trim_start,
};

verus! {

/// A request sent at the start of a tunnel stream.
#[derive(Debug, Clone, Copy, PartialEq, Eq, Structural)]
pub enum Request {
    Open { port: u16 },
}

/// The keyword and space that begin an open request.
pub open spec fn open_keyword() -> Seq<char> {
    seq!['O', 'P', 'E', 'N', ' ']
}

/// The text put in a port parse error when the line is no open request.
pub open spec fn unknown_port_text() -> Seq<char> {
    seq!['U', 'N', 'K', 'N', 'O', 'W', 'N']
}

/// The line written for a request, newline included.
pub open spec fn request_line(r: Request) -> Seq<char> {
    match r {
        Request::Open { port } => open_keyword() + decimal(port as nat) + seq!['\n'],
    }
}

/// The port that a received line asks for: the trimmed line must be the
/// keyword followed by a decimal port number.
pub open spec fn requested_port(line: Seq<char>) -> Option<nat> {
    match strip_prefix(trim(line), open_keyword()) {
        Some(rest) => parse_unsigned(rest, 10, 0xffff),
        None => None,
    }
}

/// The text reported in the error for a line that is no valid request.
pub open spec fn rejected_port_text(line: Seq<char>) -> Seq<char> {
    match strip_prefix(trim(line), open_keyword()) {
        Some(rest) => rest,
        None => unknown_port_text(),
    }
}

impl Request {
    /// The line to write for this request (`OPEN <port>` and a newline).
    pub fn to_line(&self) -> (s: String)
        ensures
            s@ == request_line(*self),
    {
        match self {
            Request::Open { port } => {
                let mut v: Vec<char> = vec!['O', 'P', 'E', 'N', ' '];
                let digits = format_radix_chars(*port as u64, 10);
                extend_chars(&mut v, &digits);
                v.push('\n');
                string_of(&v)
            },
        }
    }

    /// Reads a request from the line received at the start of a stream.
    pub fn from_line(line: &str) -> (r: Result<Request, Error>)
        ensures
            match r {
                Ok(Request::Open { port }) => requested_port(line@) == Some(port as nat),
                Err(Error::PortParseError { port }) => requested_port(line@) is None
                    && port@ == rejected_port_text(line@),
                Err(_) => false,
            },
    {
        let chars = chars_of(line);
        let trimmed = trim_chars(&chars);
        let keyword: Vec<char> = vec!['O', 'P', 'E', 'N', ' '];
        match strip_prefix_chars(&trimmed, &keyword) {
            None => {
                let unknown: Vec<char> = vec!['U', 'N', 'K', 'N', 'O', 'W', 'N'];
                Err(Error::PortParseError { port: string_of(&unknown) })
            },
            Some(rest) => match parse_unsigned_chars(&rest, 10, 0xffff) {
                Some(p) => Ok(Request::Open { port: p as u16 }),
                None => Err(Error::PortParseError { port: string_of(&rest) }),
            },
        }
    }
}

proof fn lemma_trim_of_line(body: Seq<char>)
    requires
        body.len() > 0,
        !is_white_space(body[0]),
        !is_white_space(body.last()),
    ensures
        trim(body.push('\n')) == body,
{
    let s = body.push('\n');
    assert(trim_start(s) == s);
    assert(s.drop_last() =~= body);
    assert(trim_end(s) == trim_end(body));
    assert(trim_end(body) == body);
}

/// A request line read back gives the request that was written.
pub proof fn lemma_request_round_trip(r: Request)
    ensures
        requested_port(request_line(r)) == Some(
            match r {
                Request::Open { port } => port as nat,
            },
        ),
{
    match r {
        Request::Open { port } => {
            let digits = decimal(port as nat);
            lemma_format_radix_value(port as nat, 10);
            let body = open_keyword() + digits;
            assert(request_line(r) =~= body.push('\n'));
            assert(body[0] == 'O');
            assert(body.last() == digits.last());
            assert(digits.last() == digits[digits.len() - 1]);
            lemma_format_radix_chars(port as nat, 10);
            lemma_trim_of_line(body);
            assert(body.subrange(0, 5) =~= open_keyword());
            assert(body.subrange(5, body.len() as int) =~= digits);
        },
    }
}

} // verus!
