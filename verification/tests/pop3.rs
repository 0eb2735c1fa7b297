use ferro_core::pop3::protocol::{
    command_with_arg, command_with_number, connection_plan, join_message_lines, line_from_read,
    multiline_entry, parse_two_numbers, parse_uidl_line, status_reply, ConnectPlan,
};
use ferro_core::pop3::Pop3Error;

/// Reads a multi-line reply as the client does: lines until the lone dot,
/// with doubled leading dots undone.
fn read_multiline(lines: &[&str]) -> Vec<String> {
    let mut out = Vec::new();
    for line in lines {
        match multiline_entry(line) {
            Some(l) => out.push(l),
            None => break,
        }
    }
    out
}

#[test]
fn full_session_against_fake_server() {
    // The replies of the test server, line by line, as the client reads them.
    assert_eq!(status_reply("+OK fake pop3 server ready").unwrap(), "fake pop3 server ready");

    assert_eq!(status_reply("+OK Capability list follows").unwrap(), "Capability list follows");
    let capa = read_multiline(&["UIDL", "STLS", "."]);
    assert_eq!(capa, vec!["UIDL".to_string(), "STLS".to_string()]);

    assert_eq!(command_with_arg("USER", "alice"), "USER alice");
    assert_eq!(status_reply("+OK").unwrap(), "");
    assert_eq!(command_with_arg("PASS", "secret"), "PASS secret");

    let stat = status_reply("+OK 2 300").unwrap();
    assert_eq!(parse_two_numbers(&stat).unwrap(), (2, 300));

    let list: Vec<(u32, u64)> = read_multiline(&["1 100", "2 200", "."])
        .iter()
        .map(|l| parse_two_numbers(l).unwrap())
        .collect();
    assert_eq!(list, vec![(1, 100), (2, 200)]);

    let uidl: Vec<(u32, String)> = read_multiline(&["1 uidl-one", "2 uidl-two", "."])
        .iter()
        .map(|l| parse_uidl_line(l).unwrap())
        .collect();
    assert_eq!(uidl, vec![(1, "uidl-one".to_string()), (2, "uidl-two".to_string())]);

    assert_eq!(command_with_number("RETR", 1), "RETR 1");
    assert_eq!(status_reply("+OK 100 octets").unwrap(), "100 octets");
    let body = read_multiline(&["Subject: hi", "", "..dot-leading line", "body", "."]);
    assert_eq!(
        join_message_lines(&body).into_bytes(),
        b"Subject: hi\r\n\r\n.dot-leading line\r\nbody".to_vec()
    );

    assert_eq!(command_with_number("DELE", 1), "DELE 1");
    assert_eq!(status_reply("+OK message deleted").unwrap(), "message deleted");
    assert_eq!(status_reply("+OK bye").unwrap(), "bye");
}

#[test]
fn retr_batch_reads_responses_in_order() {
    let replies = [
        ("+OK 100 octets", vec!["Subject: hi", "", "..dot-leading line", "body", "."]),
        ("+OK 50 octets", vec!["Subject: second", "", "second body", "."]),
    ];
    let results: Vec<Vec<u8>> = replies
        .iter()
        .map(|(status, lines)| {
            status_reply(status).unwrap();
            join_message_lines(&read_multiline(lines)).into_bytes()
        })
        .collect();
    assert_eq!(results.len(), 2);
    assert_eq!(results[0], b"Subject: hi\r\n\r\n.dot-leading line\r\nbody");
    assert_eq!(results[1], b"Subject: second\r\n\r\nsecond body");
}

#[test]
fn plaintext_connection_is_refused_without_opt_in() {
    let result = connection_plan(1100, false, false);
    assert!(matches!(result, Err(Pop3Error::PlaintextNotAllowed(_))));
}

#[test]
fn plaintext_connection_succeeds_with_explicit_opt_in() {
    assert_eq!(connection_plan(1100, false, true), Ok(ConnectPlan::Plain));
}

#[test]
fn tls_uses_implicit_tls_on_995_and_stls_elsewhere() {
    assert_eq!(connection_plan(995, true, false), Ok(ConnectPlan::ImplicitTls));
    assert_eq!(connection_plan(110, true, false), Ok(ConnectPlan::PlainThenStls));
    assert_eq!(connection_plan(995, false, true), Ok(ConnectPlan::Plain));
}

#[test]
fn status_lines_distinguish_ok_err_and_garbage() {
    assert_eq!(status_reply("+OK   spaced").unwrap(), "spaced");
    assert_eq!(
        status_reply("-ERR  no such message"),
        Err(Pop3Error::ServerError("no such message".to_string()))
    );
    assert_eq!(
        status_reply("* hello"),
        Err(Pop3Error::Protocol("unexpected response: * hello".to_string()))
    );
    assert_eq!(
        status_reply("+ok lower"),
        Err(Pop3Error::Protocol("unexpected response: +ok lower".to_string()))
    );
}

#[test]
fn line_endings_are_stripped_and_an_empty_read_is_a_closed_connection() {
    assert_eq!(line_from_read(6, "+OK\r\n"), Ok("+OK".to_string()));
    assert_eq!(line_from_read(3, "abc"), Ok("abc".to_string()));
    assert_eq!(line_from_read(4, "x\n\r\n"), Ok("x".to_string()));
    assert_eq!(line_from_read(0, ""), Err(Pop3Error::ConnectionClosed));
}

#[test]
fn two_number_lines_report_what_is_missing() {
    assert_eq!(parse_two_numbers("  7\t4096  extra"), Ok((7, 4096)));
    assert_eq!(
        parse_two_numbers(""),
        Err(Pop3Error::Protocol("expected two numbers, got: ".to_string()))
    );
    assert_eq!(
        parse_two_numbers("7"),
        Err(Pop3Error::Protocol("expected two numbers, got: 7".to_string()))
    );
    assert_eq!(
        parse_two_numbers("x 1"),
        Err(Pop3Error::Protocol("expected a number, got: x 1".to_string()))
    );
    assert_eq!(
        parse_two_numbers("1 -2"),
        Err(Pop3Error::Protocol("expected a number, got: 1 -2".to_string()))
    );
    assert_eq!(
        parse_two_numbers("4294967296 1"),
        Err(Pop3Error::Protocol("expected a number, got: 4294967296 1".to_string()))
    );
}

#[test]
fn uidl_lines_split_at_the_first_space() {
    assert_eq!(parse_uidl_line("3 abc def"), Ok((3, "abc def".to_string())));
    assert_eq!(parse_uidl_line("3 "), Ok((3, String::new())));
    assert_eq!(
        parse_uidl_line("3"),
        Err(Pop3Error::Protocol("malformed UIDL line: 3".to_string()))
    );
    assert_eq!(
        parse_uidl_line(" 3 x"),
        Err(Pop3Error::Protocol("malformed UIDL line:  3 x".to_string()))
    );
}

#[test]
fn multiline_entries_end_at_a_lone_dot() {
    assert_eq!(multiline_entry("."), None);
    assert_eq!(multiline_entry(".."), Some(".".to_string()));
    assert_eq!(multiline_entry("...x"), Some("..x".to_string()));
    assert_eq!(multiline_entry(".x"), Some(".x".to_string()));
    assert_eq!(multiline_entry(""), Some(String::new()));
}
