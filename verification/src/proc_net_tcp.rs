//! Reading the kernel's socket tables (`/proc/net/tcp` and friends).
use std::collections::BTreeSet;
use vstd::prelude::*;
use crate::text::{
    chars_of, digit_char, digit_value, digits_value, extend_chars, format_radix, format_radix_chars, lines, lines_chars,
    parse_unsigned, parse_unsigned_chars, split_on, split_on_chars, split_whitespace,
    split_whitespace_chars, string_of, views,
};

verus! {

/// TCP connection states as the kernel numbers them.
#[derive(Debug, Clone, Copy, PartialEq, Eq, Structural)]
pub enum TcpState {
    Established,
    SynSent,
    SynRecv,
    FinWait1,
    FinWait2,
    TimeWait,
    Close,
    CloseWait,
    LastAck,
    Listen,
    Closing,
}

/// The kernel's number of a state.
pub open spec fn state_code(s: TcpState) -> u8 {
    match s {
        TcpState::Established => 0x01,
        TcpState::SynSent => 0x02,
        TcpState::SynRecv => 0x03,
        TcpState::FinWait1 => 0x04,
        TcpState::FinWait2 => 0x05,
        TcpState::TimeWait => 0x06,
        TcpState::Close => 0x07,
        TcpState::CloseWait => 0x08,
        TcpState::LastAck => 0x09,
        TcpState::Listen => 0x0A,
        TcpState::Closing => 0x0B,
    }
}

/// The state with the given number, if there is one.
pub open spec fn state_of_code(v: nat) -> Option<TcpState> {
    if v == 0x01 {
        Some(TcpState::Established)
    } else if v == 0x02 {
        Some(TcpState::SynSent)
    } else if v == 0x03 {
        Some(TcpState::SynRecv)
    } else if v == 0x04 {
        Some(TcpState::FinWait1)
    } else if v == 0x05 {
        Some(TcpState::FinWait2)
    } else if v == 0x06 {
        Some(TcpState::TimeWait)
    } else if v == 0x07 {
        Some(TcpState::Close)
    } else if v == 0x08 {
        Some(TcpState::CloseWait)
    } else if v == 0x09 {
        Some(TcpState::LastAck)
    } else if v == 0x0A {
        Some(TcpState::Listen)
    } else if v == 0x0B {
        Some(TcpState::Closing)
    } else {
        None
    }
}

/// The state written as a hexadecimal byte, as the kernel's table has it.
pub open spec fn state_of_hex(hex: Seq<char>) -> Option<TcpState> {
    match parse_unsigned(hex, 16, 0xff) {
        Some(v) => state_of_code(v),
        None => None,
    }
}

/// `0x` and the state's number in upper-case hexadecimal digits.
pub open spec fn state_hex_text(s: TcpState) -> Seq<char> {
    seq!['0', 'x'] + format_radix(state_code(s) as nat, 16)
}

impl TcpState {
    /// The kernel's number of this state.
    pub fn code(&self) -> (v: u8)
        ensures
            v == state_code(*self),
    {
        match self {
            TcpState::Established => 0x01,
            TcpState::SynSent => 0x02,
            TcpState::SynRecv => 0x03,
            TcpState::FinWait1 => 0x04,
            TcpState::FinWait2 => 0x05,
            TcpState::TimeWait => 0x06,
            TcpState::Close => 0x07,
            TcpState::CloseWait => 0x08,
            TcpState::LastAck => 0x09,
            TcpState::Listen => 0x0A,
            TcpState::Closing => 0x0B,
        }
    }

    fn from_code(v: u64) -> (r: Option<TcpState>)
        ensures
            r == state_of_code(v as nat),
    {
        if v == 0x01 {
            Some(TcpState::Established)
        } else if v == 0x02 {
            Some(TcpState::SynSent)
        } else if v == 0x03 {
            Some(TcpState::SynRecv)
        } else if v == 0x04 {
            Some(TcpState::FinWait1)
        } else if v == 0x05 {
            Some(TcpState::FinWait2)
        } else if v == 0x06 {
            Some(TcpState::TimeWait)
        } else if v == 0x07 {
            Some(TcpState::Close)
        } else if v == 0x08 {
            Some(TcpState::CloseWait)
        } else if v == 0x09 {
            Some(TcpState::LastAck)
        } else if v == 0x0A {
            Some(TcpState::Listen)
        } else if v == 0x0B {
            Some(TcpState::Closing)
        } else {
            None
        }
    }

    fn from_hex_chars(hex: &Vec<char>) -> (r: Option<TcpState>)
        ensures
            r == state_of_hex(hex@),
    {
        match parse_unsigned_chars(hex, 16, 0xff) {
            Some(v) => TcpState::from_code(v),
            None => None,
        }
    }

    /// The state whose number the hexadecimal text gives.
    pub fn from_hex(hex: &str) -> (r: Option<TcpState>)
        ensures
            r == state_of_hex(hex@),
    {
        let chars = chars_of(hex);
        TcpState::from_hex_chars(&chars)
    }

    /// The state's number as `0x` and upper-case hexadecimal digits.
    pub fn to_hex(&self) -> (s: String)
        ensures
            s@ == state_hex_text(*self),
    {
        let mut v: Vec<char> = vec!['0', 'x'];
        let digits = format_radix_chars(self.code() as u64, 16);
        extend_chars(&mut v, &digits);
        string_of(&v)
    }
}

/// A state's number gives the state back.
pub proof fn lemma_state_hex_round_trip(s: TcpState)
    ensures
        state_of_code(state_code(s) as nat) == Some(s),
{
}

/// A hexadecimal digit for a value below 16, in upper or lower case.
pub open spec fn hex_digit(v: nat, upper: bool) -> char {
    if v < 10 {
        (0x30 + v) as char
    } else if upper {
        (0x41 + v - 10) as char
    } else {
        (0x61 + v - 10) as char
    }
}

/// A byte as two hexadecimal digits (`{:02X}` or `{:02x}`), as the kernel's
/// table writes a state.
pub open spec fn byte_hex(v: u8, upper: bool) -> Seq<char> {
    seq![hex_digit(v as nat / 16, upper), hex_digit(v as nat % 16, upper)]
}

proof fn lemma_hex_digit_value(v: nat, upper: bool)
    requires
        v < 16,
    ensures
        digit_value(hex_digit(v, upper), 16) == Some(v),
        hex_digit(v, upper) != '+',
{
}

proof fn lemma_one_hex_digit(v: nat, upper: bool)
    requires
        v < 16,
    ensures
        digits_value(seq![hex_digit(v, upper)], 16) == Some(v),
{
    lemma_hex_digit_value(v, upper);
    let d = seq![hex_digit(v, upper)];
    assert(d.drop_last() =~= Seq::<char>::empty());
    assert(digits_value(Seq::<char>::empty(), 16) == Some(0nat));
}

/// Two hexadecimal digits, in either case, read back as the byte they write.
pub proof fn lemma_byte_hex_value(v: u8, upper: bool)
    ensures
        parse_unsigned(byte_hex(v, upper), 16, 0xff) == Some(v as nat),
{
    let hi = v as nat / 16;
    let lo = v as nat % 16;
    let d = byte_hex(v, upper);
    lemma_hex_digit_value(hi, upper);
    lemma_hex_digit_value(lo, upper);
    lemma_one_hex_digit(hi, upper);
    assert(d.drop_last() =~= seq![hex_digit(hi, upper)]);
    assert(d.last() == hex_digit(lo, upper));
    assert(digits_value(d, 16) == Some(hi * 16 + lo));
    assert(hi * 16 + lo == v as nat);
}

/// `from_hex` undoes the kernel's writing of a state (two hexadecimal digits,
/// upper or lower case) and `to_hex` without its `0x` prefix.
pub proof fn lemma_state_hex_texts_read_back(s: TcpState)
    ensures
        state_of_hex(byte_hex(state_code(s), true)) == Some(s),
        state_of_hex(byte_hex(state_code(s), false)) == Some(s),
        state_of_hex(state_hex_text(s).subrange(2, state_hex_text(s).len() as int)) == Some(s),
{
    let v = state_code(s);
    lemma_byte_hex_value(v, true);
    lemma_byte_hex_value(v, false);
    let t = state_hex_text(s);
    assert(format_radix(v as nat, 16) == seq![digit_char(v as nat)]);
    assert(digit_char(v as nat) == hex_digit(v as nat, true));
    assert(t.subrange(2, t.len() as int) =~= seq![hex_digit(v as nat, true)]);
    lemma_one_hex_digit(v as nat, true);
    lemma_hex_digit_value(v as nat, true);
}

/// One row of the socket table. Addresses are held as their four octets.
#[derive(Debug)]
pub struct TcpEntry {
    pub sl: u32,
    pub local_address: [u8; 4],
    pub local_port: u16,
    pub remote_address: [u8; 4],
    pub remote_port: u16,
    pub state: TcpState,
    pub tx_queue: u32,
    pub rx_queue: u32,
    pub timer_active: bool,
    pub timer_when: u32,
    pub timeout: u32,
    pub retransmits: u32,
    pub uid: u32,
    pub inode: u64,
}

pub open spec fn u32_max() -> nat {
    0xffff_ffff
}

pub open spec fn u16_max() -> nat {
    0xffff
}

pub open spec fn u64_max() -> nat {
    0xffff_ffff_ffff_ffff
}

/// The address that the table's hexadecimal word stands for: the table holds
/// the address in the machine's (little-endian) byte order, so its octets are
/// the word's bytes from the lowest up.
pub open spec fn address_octets(word: u32) -> [u8; 4] {
    [word as u8, (word >> 8u32) as u8, (word >> 16u32) as u8, (word >> 24u32) as u8]
}

/// The number that four octets make, the first the lowest: the value of the
/// little-endian word they were taken from.
pub open spec fn little_endian_value(a: [u8; 4]) -> nat {
    (a[0] + 0x100 * a[1] + 0x1_0000 * a[2] + 0x100_0000 * a[3]) as nat
}

/// The octets of a word are its bytes from the lowest up.
pub proof fn lemma_address_octets_value(word: u32)
    ensures
        little_endian_value(address_octets(word)) == word as nat,
{
    let a = address_octets(word);
    assert(a[0] == word as u8);
    assert(a[1] == (word >> 8u32) as u8);
    assert(a[2] == (word >> 16u32) as u8);
    assert(a[3] == (word >> 24u32) as u8);
    assert((word as u8) as int + 0x100 * ((word >> 8u32) as u8) as int + 0x1_0000 * ((word
        >> 16u32) as u8) as int + 0x100_0000 * ((word >> 24u32) as u8) as int == word as int)
        by (bit_vector);
}

/// A row that is read holds both addresses as the hexadecimal words of its
/// address fields, taken with their lowest byte first: the local address
/// from the field before the first `:` of the second column, the remote one
/// from the same place in the third. (`0100007F` is 127.0.0.1.)
pub proof fn lemma_row_addresses(line: Seq<char>)
    requires
        row_outcome(line) matches Some(Some(_)),
    ensures
        ({
            let parts = split_whitespace(line);
            let e = row_outcome(line)->0->0;
            &&& parse_unsigned(split_on(parts[1], ':')[0], 16, u32_max()) == Some(
                little_endian_value(e.local_address),
            )
            &&& parse_unsigned(split_on(parts[2], ':')[0], 16, u32_max()) == Some(
                little_endian_value(e.remote_address),
            )
        }),
{
    let parts = split_whitespace(line);
    let local = split_on(parts[1], ':');
    let remote = split_on(parts[2], ':');
    let lv = parse_unsigned(local[0], 16, u32_max())->0;
    let rv = parse_unsigned(remote[0], 16, u32_max())->0;
    assert(lv <= u32_max());
    assert(rv <= u32_max());
    lemma_address_octets_value(lv as u32);
    lemma_address_octets_value(rv as u32);
}

fn address_octets_exec(word: u32) -> (r: [u8; 4])
    ensures
        r == address_octets(word),
{
    [word as u8, (word >> 8u32) as u8, (word >> 16u32) as u8, (word >> 24u32) as u8]
}

/// Whether every character is `'0'`.
pub open spec fn all_zero(s: Seq<char>) -> bool {
    forall|i: int| 0 <= i < s.len() ==> s[i] == '0'
}

fn all_zero_chars(s: &Vec<char>) -> (b: bool)
    ensures
        b == all_zero(s@),
{
    let mut i: usize = 0;
    while i < s.len()
        invariant
            i <= s@.len(),
            forall|k: int| 0 <= k < i ==> s@[k] == '0',
        decreases s@.len() - i,
    {
        if s[i] != '0' {
            return false;
        }
        i = i + 1;
    }
    true
}

/// What reading one row gives, in the order in which the row is read:
/// `None` where the reader would index a `:`-separated field that the row
/// does not have (it panics there), `Some(None)` for a row that is skipped,
/// and `Some(Some(entry))` for a row that is read.
pub open spec fn row_outcome(line: Seq<char>) -> Option<Option<TcpEntry>> {
    let parts = split_whitespace(line);
    if parts.len() < 12 {
        Some(None)
    } else if !(parts[0].len() > 0 && parts[0].last() == ':') {
        Some(None)
    } else if parse_unsigned(parts[0].drop_last(), 16, u32_max()) is None {
        Some(None)
    } else {
        let local = split_on(parts[1], ':');
        let remote = split_on(parts[2], ':');
        let queues = split_on(parts[4], ':');
        let timer = split_on(parts[5], ':');
        if parse_unsigned(local[0], 16, u32_max()) is None {
            Some(None)
        } else if local.len() < 2 {
            None
        } else if parse_unsigned(local[1], 16, u16_max()) is None {
            Some(None)
        } else if parse_unsigned(remote[0], 16, u32_max()) is None {
            Some(None)
        } else if remote.len() < 2 {
            None
        } else if parse_unsigned(remote[1], 16, u16_max()) is None {
            Some(None)
        } else if state_of_hex(parts[3]) is None {
            Some(None)
        } else if parse_unsigned(queues[0], 16, u32_max()) is None {
            Some(None)
        } else if queues.len() < 2 {
            None
        } else if parse_unsigned(queues[1], 16, u32_max()) is None {
            Some(None)
        } else if timer.len() < 2 {
            None
        } else if parse_unsigned(timer[1], 16, u32_max()) is None
            || parse_unsigned(parts[6], 16, u32_max()) is None
            || parse_unsigned(parts[7], 16, u32_max()) is None
            || parse_unsigned(parts[8], 16, u32_max()) is None
            || parse_unsigned(parts[9], 16, u64_max()) is None {
            Some(None)
        } else {
            Some(
                Some(
                    TcpEntry {
                        sl: parse_unsigned(parts[0].drop_last(), 16, u32_max())->0 as u32,
                        local_address: address_octets(
                            parse_unsigned(local[0], 16, u32_max())->0 as u32,
                        ),
                        local_port: parse_unsigned(local[1], 16, u16_max())->0 as u16,
                        remote_address: address_octets(
                            parse_unsigned(remote[0], 16, u32_max())->0 as u32,
                        ),
                        remote_port: parse_unsigned(remote[1], 16, u16_max())->0 as u16,
                        state: state_of_hex(parts[3])->0,
                        tx_queue: parse_unsigned(queues[0], 16, u32_max())->0 as u32,
                        rx_queue: parse_unsigned(queues[1], 16, u32_max())->0 as u32,
                        timer_active: !all_zero(timer[0]),
                        timer_when: parse_unsigned(timer[1], 16, u32_max())->0 as u32,
                        timeout: parse_unsigned(parts[8], 16, u32_max())->0 as u32,
                        retransmits: parse_unsigned(parts[6], 16, u32_max())->0 as u32,
                        uid: parse_unsigned(parts[7], 16, u32_max())->0 as u32,
                        inode: parse_unsigned(parts[9], 16, u64_max())->0 as u64,
                    },
                ),
            )
        }
    }
}

fn hex_u32(s: &Vec<char>) -> (r: Option<u32>)
    ensures
        match r {
            Some(v) => parse_unsigned(s@, 16, u32_max()) == Some(v as nat),
            None => parse_unsigned(s@, 16, u32_max()) is None,
        },
{
    match parse_unsigned_chars(s, 16, 0xffff_ffff) {
        Some(v) => Some(v as u32),
        None => None,
    }
}

fn hex_u16(s: &Vec<char>) -> (r: Option<u16>)
    ensures
        match r {
            Some(v) => parse_unsigned(s@, 16, u16_max()) == Some(v as nat),
            None => parse_unsigned(s@, 16, u16_max()) is None,
        },
{
    match parse_unsigned_chars(s, 16, 0xffff) {
        Some(v) => Some(v as u16),
        None => None,
    }
}

/// Reads one row of the socket table (the header excluded): `None` for a row
/// without the expected fields.
pub fn parse_line(line: &str) -> (r: Option<TcpEntry>)
    requires
        row_outcome(line@) is Some,
    ensures
        Some(r) == row_outcome(line@),
        r matches Some(e) ==> parse_unsigned(
            split_on(split_whitespace(line@)[1], ':')[0],
            16,
            u32_max(),
        ) == Some(little_endian_value(e.local_address)) && parse_unsigned(
            split_on(split_whitespace(line@)[2], ':')[0],
            16,
            u32_max(),
        ) == Some(little_endian_value(e.remote_address)),
{
    proof {
        if row_outcome(line@) matches Some(Some(_)) {
            lemma_row_addresses(line@);
        }
    }
    let chars = chars_of(line);
    parse_row(&chars)
}

fn read_row(line: &Vec<char>) -> (r: Option<Option<TcpEntry>>)
    ensures
        r == row_outcome(line@),
{
    let parts = split_whitespace_chars(line);
    let ghost ps = split_whitespace(line@);
    assert(views(parts@) == ps);
    if parts.len() < 12 {
        return Some(None);
    }
    assert forall|i: int| 0 <= i < 12 implies #[trigger] parts@[i]@ == ps[i] by {
        assert(views(parts@)[i] == parts@[i]@);
    }
    let p0 = &parts[0];
    if !(p0.len() > 0 && p0[p0.len() - 1] == ':') {
        return Some(None);
    }
    let sl_text = crate::text::sub_chars(p0, 0, p0.len() - 1);
    assert(sl_text@ =~= ps[0].drop_last());
    let sl = match hex_u32(&sl_text) {
        Some(v) => v,
        None => return Some(None),
    };
    let local = split_on_chars(&parts[1], ':');
    assert(views(local@)[0] == local@[0]@);
    let local_ip = match hex_u32(&local[0]) {
        Some(v) => v,
        None => return Some(None),
    };
    if local.len() < 2 {
        return None;
    }
    assert(views(local@)[1] == local@[1]@);
    let local_port = match hex_u16(&local[1]) {
        Some(v) => v,
        None => return Some(None),
    };
    let remote = split_on_chars(&parts[2], ':');
    assert(views(remote@)[0] == remote@[0]@);
    let remote_ip = match hex_u32(&remote[0]) {
        Some(v) => v,
        None => return Some(None),
    };
    if remote.len() < 2 {
        return None;
    }
    assert(views(remote@)[1] == remote@[1]@);
    let remote_port = match hex_u16(&remote[1]) {
        Some(v) => v,
        None => return Some(None),
    };
    let state = match TcpState::from_hex_chars(&parts[3]) {
        Some(st) => st,
        None => return Some(None),
    };
    let queues = split_on_chars(&parts[4], ':');
    assert(views(queues@)[0] == queues@[0]@);
    let tx_queue = match hex_u32(&queues[0]) {
        Some(v) => v,
        None => return Some(None),
    };
    if queues.len() < 2 {
        return None;
    }
    assert(views(queues@)[1] == queues@[1]@);
    let rx_queue = match hex_u32(&queues[1]) {
        Some(v) => v,
        None => return Some(None),
    };
    let timer = split_on_chars(&parts[5], ':');
    assert(views(timer@)[0] == timer@[0]@);
    let timer_active = !all_zero_chars(&timer[0]);
    if timer.len() < 2 {
        return None;
    }
    assert(views(timer@)[1] == timer@[1]@);
    let timer_when = match hex_u32(&timer[1]) {
        Some(v) => v,
        None => return Some(None),
    };
    let retransmits = match hex_u32(&parts[6]) {
        Some(v) => v,
        None => return Some(None),
    };
    let uid = match hex_u32(&parts[7]) {
        Some(v) => v,
        None => return Some(None),
    };
    let timeout = match hex_u32(&parts[8]) {
        Some(v) => v,
        None => return Some(None),
    };
    let inode = match parse_unsigned_chars(&parts[9], 16, 0xffff_ffff_ffff_ffff) {
        Some(v) => v,
        None => return Some(None),
    };
    Some(Some(
        TcpEntry {
            sl,
            local_address: address_octets_exec(local_ip),
            local_port,
            remote_address: address_octets_exec(remote_ip),
            remote_port,
            state,
            tx_queue,
            rx_queue,
            timer_active,
            timer_when,
            timeout,
            retransmits,
            uid,
            inode,
        },
    ))
}

fn parse_row(line: &Vec<char>) -> (r: Option<TcpEntry>)
    requires
        row_outcome(line@) is Some,
    ensures
        Some(r) == row_outcome(line@),
{
    match read_row(line) {
        Some(r) => r,
        None => None,
    }
}

/// The rows of a table's text: its lines after the first, the header.
pub open spec fn table_rows(contents: Seq<char>) -> Seq<Seq<char>> {
    let ls = lines(contents);
    if ls.len() == 0 {
        ls
    } else {
        ls.drop_first()
    }
}

/// Whether no row of the table leads the reader to a missing field.
pub open spec fn rows_readable(rows: Seq<Seq<char>>) -> bool {
    forall|i: int| 0 <= i < rows.len() ==> #[trigger] row_outcome(rows[i]) is Some
}

/// The entries read from the rows, in order; skipped rows give none.
pub open spec fn entries_of(rows: Seq<Seq<char>>) -> Seq<TcpEntry>
    decreases rows.len(),
{
    if rows.len() == 0 {
        Seq::empty()
    } else {
        entries_of(rows.drop_last()) + match row_outcome(rows.last()) {
            Some(Some(e)) => seq![e],
            _ => Seq::empty(),
        }
    }
}

fn table_rows_chars(contents: &str) -> (rows: Vec<Vec<char>>)
    ensures
        views(rows@) == table_rows(contents@),
{
    let chars = chars_of(contents);
    let mut ls = lines_chars(&chars);
    if ls.len() > 0 {
        let ghost before = views(ls@);
        ls.remove(0);
        assert(views(ls@) =~= before.drop_first());
    }
    ls
}

/// The entries of a socket table's text (its header line skipped).
pub fn parse_proc_net_tcp(contents: &str) -> (r: Vec<TcpEntry>)
    requires
        rows_readable(table_rows(contents@)),
    ensures
        r@ == entries_of(table_rows(contents@)),
{
    let rows = table_rows_chars(contents);
    let ghost rs = table_rows(contents@);
    let mut out: Vec<TcpEntry> = Vec::new();
    let mut i: usize = 0;
    while i < rows.len()
        invariant
            views(rows@) == rs,
            rows_readable(rs),
            i <= rows@.len(),
            out@ == entries_of(rs.subrange(0, i as int)),
        decreases rows@.len() - i,
    {
        assert(views(rows@)[i as int] == rows@[i as int]@);
        assert(row_outcome(rs[i as int]) is Some);
        let e = parse_row(&rows[i]);
        assert(rs.subrange(0, i + 1).drop_last() =~= rs.subrange(0, i as int));
        assert(rs.subrange(0, i + 1).last() == rs[i as int]);
        match e {
            Some(entry) => {
                out.push(entry);
            },
            None => {},
        }
        assert(out@ =~= entries_of(rs.subrange(0, i + 1)));
        i = i + 1;
    }
    assert(rs.subrange(0, i as int) =~= rs);
    out
}

/// Whether some entry is a listening socket on the port.
pub open spec fn listens_on(entries: Seq<TcpEntry>, port: u16) -> bool {
    exists|i: int|
        0 <= i < entries.len() && (#[trigger] entries[i]).state == TcpState::Listen
            && entries[i].local_port == port
}

/// A port counts as listened on exactly when some entry on it is in the
/// `Listen` state; entries in any other state (such as `TimeWait`) on the
/// port do not count.
pub proof fn lemma_listening_needs_listen_state(entries: Seq<TcpEntry>, port: u16)
    ensures
        listens_on(entries, port) <==> exists|i: int|
            0 <= i < entries.len() && (#[trigger] entries[i]).state == TcpState::Listen
                && entries[i].local_port == port,
        (forall|i: int| 0 <= i < entries.len() ==> (#[trigger] entries[i]).state != TcpState::Listen)
            ==> !listens_on(entries, port),
{
}

/// Whether the socket table's text lists a listening socket on the port.
pub fn is_listening_on(contents: &str, port: u16) -> (b: bool)
    requires
        rows_readable(table_rows(contents@)),
    ensures
        b == listens_on(entries_of(table_rows(contents@)), port),
        b <==> exists|i: int|
            0 <= i < entries_of(table_rows(contents@)).len() && (#[trigger] entries_of(
                table_rows(contents@),
            )[i]).state == TcpState::Listen && entries_of(table_rows(contents@))[i].local_port
                == port,
{
    let entries = parse_proc_net_tcp(contents);
    let mut i: usize = 0;
    while i < entries.len()
        invariant
            i <= entries@.len(),
            entries@ == entries_of(table_rows(contents@)),
            forall|k: int|
                0 <= k < i ==> !((#[trigger] entries@[k]).state == TcpState::Listen
                    && entries@[k].local_port == port),
        decreases entries@.len() - i,
    {
        if entries[i].state == TcpState::Listen && entries[i].local_port == port {
            assert(entries@[i as int].state == TcpState::Listen);
            assert(listens_on(entries@, port));
            return true;
        }
        i = i + 1;
    }
    assert(!listens_on(entries@, port));
    false
}

/// The port of a row that counts as open: at least four fields, the state
/// field `0A` (listening) or `07` (the state the kernel shows for unconnected
/// UDP sockets), and a local address field whose part after the first `:`
/// is a hexadecimal port.
pub open spec fn listed_port(line: Seq<char>) -> Option<u16> {
    let fields = split_whitespace(line);
    if fields.len() < 4 {
        None
    } else if fields[3] != seq!['0', 'A'] && fields[3] != seq!['0', '7'] {
        None
    } else {
        let address = split_on(fields[1], ':');
        if address.len() < 2 {
            None
        } else {
            match parse_unsigned(address[1], 16, u16_max()) {
                Some(v) => Some(v as u16),
                None => None,
            }
        }
    }
}

/// A row counts as open only with the state field `0A` or `07`, and then
/// its port is the hexadecimal text after the first `:` of its local address
/// field; a row in any other state (such as `06`, time-wait) adds no port.
pub proof fn lemma_open_rows(line: Seq<char>)
    ensures
        listed_port(line) is Some ==> split_whitespace(line).len() >= 4 && (split_whitespace(line)[3]
            == seq!['0', 'A'] || split_whitespace(line)[3] == seq!['0', '7']),
        listed_port(line) matches Some(p) ==> parse_unsigned(
            split_on(split_whitespace(line)[1], ':')[1],
            16,
            u16_max(),
        ) == Some(p as nat),
        split_whitespace(line).len() >= 4 && split_whitespace(line)[3] != seq!['0', 'A']
            && split_whitespace(line)[3] != seq!['0', '7'] ==> listed_port(line) is None,
        split_whitespace(line).len() >= 4 && (split_whitespace(line)[3] == seq!['0', 'A']
            || split_whitespace(line)[3] == seq!['0', '7']) && split_on(
            split_whitespace(line)[1],
            ':',
        ).len() >= 2 && parse_unsigned(split_on(split_whitespace(line)[1], ':')[1], 16, u16_max())
            is Some ==> listed_port(line) is Some,
{
}

/// Every port found in a socket table comes from a row whose state field is
/// `0A` or `07`.
pub proof fn lemma_listed_ports_are_open(rows: Seq<Seq<char>>, p: u16)
    requires
        listed_ports(rows).contains(p),
    ensures
        exists|i: int|
            0 <= i < rows.len() && split_whitespace(#[trigger] rows[i]).len() >= 4 && (
            split_whitespace(rows[i])[3] == seq!['0', 'A'] || split_whitespace(rows[i])[3] == seq![
                '0',
                '7',
            ]),
{
    let i = choose|i: int| 0 <= i < rows.len() && listed_port(#[trigger] rows[i]) == Some(p);
    lemma_open_rows(rows[i]);
}

/// The ports of all rows that count as open.
pub open spec fn listed_ports(rows: Seq<Seq<char>>) -> Set<u16> {
    Set::new(|p: u16| exists|i: int| 0 <= i < rows.len() && listed_port(#[trigger] rows[i]) == Some(p))
}

fn listed_port_chars(line: &Vec<char>) -> (r: Option<u16>)
    ensures
        r == listed_port(line@),
{
    let fields = split_whitespace_chars(line);
    let ghost fs = split_whitespace(line@);
    if fields.len() < 4 {
        return None;
    }
    assert(views(fields@)[3] == fields@[3]@);
    assert(views(fields@)[1] == fields@[1]@);
    let listen: Vec<char> = vec!['0', 'A'];
    let close: Vec<char> = vec!['0', '7'];
    if !crate::text::chars_eq(&fields[3], &listen) && !crate::text::chars_eq(&fields[3], &close) {
        return None;
    }
    let address = split_on_chars(&fields[1], ':');
    if address.len() < 2 {
        return None;
    }
    assert(views(address@)[1] == address@[1]@);
    hex_u16(&address[1])
}

/// Adds to `ports` the port of every row of the socket table's text that
/// counts as open.
pub fn collect_listed_ports(contents: &str, ports: &mut BTreeSet<u16>)
    ensures
        final(ports)@ == old(ports)@.union(listed_ports(table_rows(contents@))),
{
    broadcast use vstd::std_specs::btree::group_btree_axioms;
    let rows = table_rows_chars(contents);
    let ghost rs = table_rows(contents@);
    let mut i: usize = 0;
    while i < rows.len()
        invariant
            views(rows@) == rs,
            i <= rows@.len(),
            ports@ == old(ports)@.union(listed_ports(rs.subrange(0, i as int))),
        decreases rows@.len() - i,
    {
        assert(views(rows@)[i as int] == rows@[i as int]@);
        let ghost before = ports@;
        match listed_port_chars(&rows[i]) {
            Some(p) => {
                ports.insert(p);
            },
            None => {},
        }
        assert(ports@ =~= old(ports)@.union(listed_ports(rs.subrange(0, i + 1)))) by {
            assert forall|p: u16| listed_ports(rs.subrange(0, i + 1)).contains(p) <==> (listed_ports(
                rs.subrange(0, i as int),
            ).contains(p) || listed_port(rs[i as int]) == Some(p)) by {
                if listed_ports(rs.subrange(0, i + 1)).contains(p) {
                    let k = choose|k: int|
                        0 <= k < i + 1 && listed_port(#[trigger] rs.subrange(0, i + 1)[k]) == Some(p);
                    if k < i {
                        assert(rs.subrange(0, i as int)[k] == rs.subrange(0, i + 1)[k]);
                    }
                }
                if listed_ports(rs.subrange(0, i as int)).contains(p) {
                    let k = choose|k: int|
                        0 <= k < i && listed_port(#[trigger] rs.subrange(0, i as int)[k]) == Some(p);
                    assert(rs.subrange(0, i + 1)[k] == rs.subrange(0, i as int)[k]);
                }
                if listed_port(rs[i as int]) == Some(p) {
                    assert(rs.subrange(0, i + 1)[i as int] == rs[i as int]);
                }
            }
        }
        i = i + 1;
    }
    assert(rs.subrange(0, i as int) =~= rs);
}

/// Whether every row of the table's text can be read (no row lacks a
/// `:`-separated field that the reader looks at).
pub fn table_is_readable(contents: &str) -> (b: bool)
    ensures
        b == rows_readable(table_rows(contents@)),
{
    let rows = table_rows_chars(contents);
    let ghost rs = table_rows(contents@);
    let mut i: usize = 0;
    while i < rows.len()
        invariant
            views(rows@) == rs,
            i <= rows@.len(),
            rs == table_rows(contents@),
            forall|k: int| 0 <= k < i ==> #[trigger] row_outcome(rs[k]) is Some,
        decreases rows@.len() - i,
    {
        assert(views(rows@)[i as int] == rows@[i as int]@);
        if read_row(&rows[i]).is_none() {
            assert(row_outcome(rs[i as int]) is None);
            assert(!rows_readable(rs));
            return false;
        }
        i = i + 1;
    }
    true
}

} // verus!
