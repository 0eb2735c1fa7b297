//! The client's side of the POP3 conversation, line by line: the caller reads
//! and writes the socket and hands each line to these functions.

use vstd::prelude::*;

use crate::pop3::error::Pop3Error;
use crate::text::{
    next_non_ws, next_ws, parse_u32, parse_u64, push_char, push_decimal, spec_decimal,
    spec_join, spec_next_non_ws, spec_next_ws, spec_parse_u32, spec_parse_u64, spec_trim_start,
    spec_views, string_from_chars, substring, to_chars, trim_start,
};

verus! {

/// The port of POP3 over TLS from the first byte (POP3S).
pub const IMPLICIT_TLS_PORT: u16 = 995;

/// How to reach the server.
#[derive(Debug, Clone, Copy, PartialEq, Eq, Structural)]
pub enum ConnectPlan {
    /// TLS from the first byte.
    ImplicitTls,
    /// Plain TCP, then `STLS` to switch to TLS.
    PlainThenStls,
    /// Plain TCP throughout.
    Plain,
}

/// Chooses how to connect: with TLS, port 995 means TLS from the start and any
/// other port `STLS`; without TLS, a plain connection only when it is allowed.
pub fn connection_plan(port: u16, use_tls: bool, allow_plaintext: bool) -> (plan: Result<
    ConnectPlan,
    Pop3Error,
>)
    ensures
        use_tls && port == IMPLICIT_TLS_PORT ==> plan == Ok::<ConnectPlan, Pop3Error>(
            ConnectPlan::ImplicitTls,
        ),
        use_tls && port != IMPLICIT_TLS_PORT ==> plan == Ok::<ConnectPlan, Pop3Error>(
            ConnectPlan::PlainThenStls,
        ),
        !use_tls && allow_plaintext ==> plan == Ok::<ConnectPlan, Pop3Error>(ConnectPlan::Plain),
        !use_tls && !allow_plaintext ==> (plan matches Err(Pop3Error::PlaintextNotAllowed(m))
            && m@ == "plaintext connection requires explicit opt-in (allow_plaintext)"@),
{
    if use_tls {
        if port == IMPLICIT_TLS_PORT {
            Ok(ConnectPlan::ImplicitTls)
        } else {
            Ok(ConnectPlan::PlainThenStls)
        }
    } else {
        if !allow_plaintext {
            return Err(
                Pop3Error::PlaintextNotAllowed(
                    String::from_str("plaintext connection requires explicit opt-in (allow_plaintext)"),
                ),
            );
        }
        Ok(ConnectPlan::Plain)
    }
}

/// `s` without the line feeds and carriage returns at its end.
pub open spec fn spec_strip_line_end(s: Seq<char>) -> Seq<char>
    decreases s.len(),
{
    if s.len() > 0 && (s.last() == '\n' || s.last() == '\r') {
        spec_strip_line_end(s.drop_last())
    } else {
        s
    }
}

/// A line as read from the socket: `bytes_read` is what the read returned, and
/// nothing read means the server closed the connection. The line ending is
/// removed.
pub fn line_from_read(bytes_read: usize, raw: &str) -> (line: Result<String, Pop3Error>)
    ensures
        bytes_read == 0 ==> line == Err::<String, Pop3Error>(Pop3Error::ConnectionClosed),
        bytes_read != 0 ==> (line matches Ok(l) && l@ == spec_strip_line_end(raw@)),
{
    if bytes_read == 0 {
        return Err(Pop3Error::ConnectionClosed);
    }
    let chars = to_chars(raw);
    let mut end: usize = chars.len();
    proof {
        assert(chars@.subrange(0, chars@.len() as int) =~= chars@);
    }
    while end > 0 && (chars[end - 1] == '\n' || chars[end - 1] == '\r')
        invariant
            end <= chars@.len(),
            spec_strip_line_end(chars@.subrange(0, end as int)) == spec_strip_line_end(raw@),
        decreases end,
    {
        proof {
            assert(chars@.subrange(0, end as int).drop_last() =~= chars@.subrange(0, end - 1));
        }
        end = end - 1;
    }
    Ok(substring(chars.as_slice(), 0, end))
}

/// The line starts with `+OK`.
pub open spec fn spec_is_ok(line: Seq<char>) -> bool {
    line.len() >= 3 && line[0] == '+' && line[1] == 'O' && line[2] == 'K'
}

/// The line starts with `-ERR`.
pub open spec fn spec_is_err(line: Seq<char>) -> bool {
    line.len() >= 4 && line[0] == '-' && line[1] == 'E' && line[2] == 'R' && line[3] == 'R'
}

/// Reads a one-line reply: after `+OK`, the rest without its leading white
/// space; after `-ERR`, the server's error with its text; anything else is a
/// protocol error that quotes the line.
pub fn status_reply(line: &str) -> (reply: Result<String, Pop3Error>)
    ensures
        spec_is_ok(line@) ==> (reply matches Ok(rest) && rest@ == spec_trim_start(line@.skip(3))),
        !spec_is_ok(line@) && spec_is_err(line@) ==> (reply matches Err(Pop3Error::ServerError(m))
            && m@ == spec_trim_start(line@.skip(4))),
        !spec_is_ok(line@) && !spec_is_err(line@) ==> (reply matches Err(Pop3Error::Protocol(m))
            && m@ == "unexpected response: "@ + line@),
{
    let chars = to_chars(line);
    let n: usize = chars.len();
    if n >= 3 && chars[0] == '+' && chars[1] == 'O' && chars[2] == 'K' {
        let rest = substring(chars.as_slice(), 3, n);
        proof {
            assert(rest@ =~= line@.skip(3));
        }
        return Ok(trim_start(rest.as_str()));
    }
    if n >= 4 && chars[0] == '-' && chars[1] == 'E' && chars[2] == 'R' && chars[3] == 'R' {
        let rest = substring(chars.as_slice(), 4, n);
        proof {
            assert(rest@ =~= line@.skip(4));
        }
        return Err(Pop3Error::ServerError(trim_start(rest.as_str())));
    }
    let mut m = String::from_str("unexpected response: ");
    m.append(line);
    Err(Pop3Error::Protocol(m))
}

/// One line of a multi-line reply: `None` for the lone `.` that ends it, else
/// the line with a doubled leading dot undone.
pub open spec fn spec_multiline_entry(line: Seq<char>) -> Option<Seq<char>> {
    if line == seq!['.'] {
        None
    } else if line.len() >= 2 && line[0] == '.' && line[1] == '.' {
        Some(line.drop_first())
    } else {
        Some(line)
    }
}

/// Reads one line of a multi-line reply (see `spec_multiline_entry`).
pub fn multiline_entry(line: &str) -> (entry: Option<String>)
    ensures
        entry matches Some(e) ==> spec_multiline_entry(line@) == Some(e@),
        entry is None ==> spec_multiline_entry(line@) is None,
{
    let chars = to_chars(line);
    let n: usize = chars.len();
    if n == 1 && chars[0] == '.' {
        proof {
            assert(line@ =~= seq!['.']);
        }
        return None;
    }
    if n >= 2 && chars[0] == '.' && chars[1] == '.' {
        let rest = substring(chars.as_slice(), 1, n);
        proof {
            assert(rest@ =~= line@.drop_first());
        }
        return Some(rest);
    }
    Some(string_from_chars(chars.as_slice()))
}

/// The lines of a message body (as `RETR` sends them, unstuffed) joined into
/// the message: CRLF between each two lines.
pub fn join_message_lines(lines: &[String]) -> (message: String)
    ensures
        message@ == spec_join(spec_views(lines@), "\r\n"@),
{
    crate::text::join(lines, "\r\n")
}

/// What `parse_two_numbers` gives for a line: the first two words, read as a
/// `u32` and a `u64`; further words are ignored.
pub open spec fn spec_two_numbers(s: Seq<char>) -> Result<(u32, u64), Seq<char>> {
    let a0 = spec_next_non_ws(s, 0);
    let e0 = spec_next_ws(s, a0);
    let a1 = spec_next_non_ws(s, e0);
    let e1 = spec_next_ws(s, a1);
    if a0 >= s.len() {
        Err("expected two numbers, got: "@ + s)
    } else {
        match spec_parse_u32(s.subrange(a0, e0)) {
            None => Err("expected a number, got: "@ + s),
            Some(a) => if a1 >= s.len() {
                Err("expected two numbers, got: "@ + s)
            } else {
                match spec_parse_u64(s.subrange(a1, e1)) {
                    None => Err("expected a number, got: "@ + s),
                    Some(b) => Ok((a, b)),
                }
            },
        }
    }
}

fn protocol_error(prefix: &str, line: &str) -> (e: Pop3Error)
    ensures
        e matches Pop3Error::Protocol(m) && m@ == prefix@ + line@,
{
    let mut m = String::from_str(prefix);
    m.append(line);
    Pop3Error::Protocol(m)
}

/// Reads the two numbers of a `STAT` reply or a `LIST` line (count or message
/// number, then size), split on white space.
pub fn parse_two_numbers(line: &str) -> (r: Result<(u32, u64), Pop3Error>)
    ensures
        spec_two_numbers(line@) matches Ok(v) ==> r == Ok::<(u32, u64), Pop3Error>(v),
        spec_two_numbers(line@) matches Err(msg) ==> r matches Err(Pop3Error::Protocol(m)) && m@
            == msg,
{
    let chars = to_chars(line);
    let n: usize = chars.len();
    let a0 = next_non_ws(chars.as_slice(), 0);
    if a0 >= n {
        return Err(protocol_error("expected two numbers, got: ", line));
    }
    let e0 = next_ws(chars.as_slice(), a0);
    let first = substring(chars.as_slice(), a0, e0);
    let a = match parse_u32(first.as_str()) {
        Some(v) => v,
        None => return Err(protocol_error("expected a number, got: ", line)),
    };
    let a1 = next_non_ws(chars.as_slice(), e0);
    if a1 >= n {
        return Err(protocol_error("expected two numbers, got: ", line));
    }
    let e1 = next_ws(chars.as_slice(), a1);
    let second = substring(chars.as_slice(), a1, e1);
    let b = match parse_u64(second.as_str()) {
        Some(v) => v,
        None => return Err(protocol_error("expected a number, got: ", line)),
    };
    Ok((a, b))
}

/// The index of the first space in `s` (or its length).
pub open spec fn spec_first_space(s: Seq<char>, i: int) -> int
    decreases s.len() - i,
{
    if i < 0 || i >= s.len() {
        s.len() as int
    } else if s[i] == ' ' {
        i
    } else {
        spec_first_space(s, i + 1)
    }
}

/// What a `UIDL` line gives: the text before the first space read as the
/// message number, and everything after that space as the unique id.
pub open spec fn spec_uidl_line(s: Seq<char>) -> Option<(u32, Seq<char>)> {
    let p = spec_first_space(s, 0);
    match spec_parse_u32(s.subrange(0, p)) {
        None => None,
        Some(n) => if p < s.len() {
            Some((n, s.subrange(p + 1, s.len() as int)))
        } else {
            None
        },
    }
}

/// Reads a `UIDL` line (`<number> <unique id>`); a malformed one is a
/// protocol error that quotes it.
pub fn parse_uidl_line(line: &str) -> (r: Result<(u32, String), Pop3Error>)
    ensures
        spec_uidl_line(line@) matches Some((n, id)) ==> r matches Ok((rn, rid)) && rn == n && rid@
            == id,
        spec_uidl_line(line@) is None ==> (r matches Err(Pop3Error::Protocol(m)) && m@
            == "malformed UIDL line: "@ + line@),
{
    let chars = to_chars(line);
    let n: usize = chars.len();
    let mut p: usize = 0;
    while p < n && chars[p] != ' '
        invariant
            n == chars@.len(),
            chars@ == line@,
            p <= n,
            spec_first_space(line@, p as int) == spec_first_space(line@, 0),
        decreases n - p,
    {
        p = p + 1;
    }
    let first = substring(chars.as_slice(), 0, p);
    let num = match parse_u32(first.as_str()) {
        Some(v) => v,
        None => return Err(protocol_error("malformed UIDL line: ", line)),
    };
    if p >= n {
        return Err(protocol_error("malformed UIDL line: ", line));
    }
    let id = substring(chars.as_slice(), p + 1, n);
    Ok((num, id))
}

/// A command with one argument, as sent: `USER alice`, `PASS ...`.
pub fn command_with_arg(verb: &str, arg: &str) -> (cmd: String)
    ensures
        cmd@ == verb@ + seq![' '] + arg@,
{
    let mut cmd = String::from_str(verb);
    push_char(&mut cmd, ' ');
    cmd.append(arg);
    cmd
}

/// A command with a message number, as sent: `RETR 1`, `DELE 7`.
pub fn command_with_number(verb: &str, number: u32) -> (cmd: String)
    ensures
        cmd@ == verb@ + seq![' '] + spec_decimal(number as nat),
{
    let mut cmd = String::from_str(verb);
    push_char(&mut cmd, ' ');
    push_decimal(&mut cmd, number as u64);
    cmd
}

} // verus!
