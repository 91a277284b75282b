//! End-to-end session scenarios driven through `process_line` and
//! `command`, with a recording handler.

use mailin::{
    Action, AuthMechanism, Cmd, Handler, IpAddress, LineOutcome, Response, SmtpState, StateMachine,
};

/// A handler that records every call and answers from a small script.
struct TestHandler {
    calls: Vec<String>,
    chunks: Vec<Vec<u8>>,
    reject_rcpt: bool,
    reject_data_chunks: bool,
    user: String,
    password: String,
}

impl TestHandler {
    fn new() -> TestHandler {
        TestHandler {
            calls: Vec::new(),
            chunks: Vec::new(),
            reject_rcpt: false,
            reject_data_chunks: false,
            user: String::from("user"),
            password: String::from("pw"),
        }
    }
}

impl Handler for TestHandler {
    fn events(&self) -> vstd::seq::Seq<mailin::smtp::HandlerEvent> {
        panic!("ghost state is never called at run time")
    }

    fn helo(&mut self, _ip: IpAddress, domain: &str) -> Response {
        self.calls.push(format!("helo {}", domain));
        Response::custom(250, String::from("OK"))
    }

    fn mail(&mut self, _ip: IpAddress, domain: &str, reverse_path: &str) -> Response {
        self.calls.push(format!("mail {} {}", domain, reverse_path));
        Response::custom(250, String::from("OK"))
    }

    fn rcpt(&mut self, forward_path: &str) -> Response {
        self.calls.push(format!("rcpt {}", forward_path));
        if self.reject_rcpt {
            Response::custom(550, String::from("no such user"))
        } else {
            Response::custom(250, String::from("OK"))
        }
    }

    fn data_start(
        &mut self,
        domain: &str,
        reverse_path: &str,
        _is8bit: bool,
        forward_paths: &Vec<String>,
    ) -> Response {
        self.calls.push(format!(
            "data_start {} {} {}",
            domain,
            reverse_path,
            forward_paths.join(",")
        ));
        Response::custom(250, String::from("OK"))
    }

    fn data(&mut self, buf: &[u8]) -> Result<(), ()> {
        self.calls.push(String::from("data"));
        self.chunks.push(buf.to_vec());
        if self.reject_data_chunks {
            Err(())
        } else {
            Ok(())
        }
    }

    fn data_end(&mut self) -> Response {
        self.calls.push(String::from("data_end"));
        Response::custom(250, String::from("queued as 1234"))
    }

    fn auth_plain(
        &mut self,
        authorization_id: &str,
        authentication_id: &str,
        password: &str,
    ) -> Response {
        self.calls.push(format!(
            "auth_plain {}|{}|{}",
            authorization_id, authentication_id, password
        ));
        if authentication_id == self.user && password == self.password {
            Response::custom(235, String::from("authenticated"))
        } else {
            Response::custom(535, String::from("rejected"))
        }
    }

    fn auth_login(&mut self, username: &str, password: &str) -> Response {
        self.calls.push(format!("auth_login {}|{}", username, password));
        if username == self.user && password == self.password {
            Response::custom(235, String::from("authenticated"))
        } else {
            Response::custom(535, String::from("rejected"))
        }
    }
}

fn ip() -> IpAddress {
    IpAddress::V4(127, 0, 0, 1)
}

/// Feed one line, expecting it to classify as a command, and apply it.
fn step(fsm: &mut StateMachine, h: &mut TestHandler, line: &str) -> Response {
    match fsm.process_line(h, line.as_bytes()) {
        LineOutcome::Command(cmd) => fsm.command(h, cmd),
        LineOutcome::Reply(r) => r,
    }
}

#[test]
fn minimal_no_auth_delivery() {
    let mut h = TestHandler::new();
    let mut fsm = StateMachine::new(ip(), Vec::new(), false, false);
    assert_eq!(step(&mut fsm, &mut h, "HELO mx.example\r\n").code, 250);
    assert!(matches!(fsm.current_state(), SmtpState::Hello { .. }));
    assert_eq!(step(&mut fsm, &mut h, "MAIL FROM:<a@x>\r\n").code, 250);
    assert!(matches!(fsm.current_state(), SmtpState::Mail { .. }));
    assert_eq!(step(&mut fsm, &mut h, "RCPT TO:<b@y>\r\n").code, 250);
    assert!(matches!(fsm.current_state(), SmtpState::Rcpt { .. }));
    assert_eq!(step(&mut fsm, &mut h, "DATA\r\n").code, 354);
    assert!(matches!(fsm.current_state(), SmtpState::Data { .. }));
    let r = match fsm.process_line(&mut h, b"hi\r\n") {
        LineOutcome::Reply(r) => r,
        _ => panic!("body line must be consumed"),
    };
    assert_eq!(r.action, Action::NoReply);
    let done = step(&mut fsm, &mut h, ".\r\n");
    assert_eq!(done.code, 250);
    assert_eq!(done.message, "queued as 1234");
    assert!(matches!(fsm.current_state(), SmtpState::Hello { .. }));
    let bye = step(&mut fsm, &mut h, "QUIT\r\n");
    assert_eq!(bye.code, 221);
    assert_eq!(bye.action, Action::Close);
    assert!(matches!(fsm.current_state(), SmtpState::Invalid));
    // the session is terminal now
    assert_eq!(fsm.command(&mut h, Cmd::Noop).code, 503);
    assert_eq!(
        h.calls,
        vec![
            "helo mx.example",
            "mail mx.example a@x",
            "rcpt b@y",
            "data_start mx.example a@x b@y",
            "data",
            "data_end",
        ]
    );
    assert_eq!(h.chunks, vec![b"hi\r\n".to_vec()]);
}

#[test]
fn ehlo_with_tls_no_auth() {
    let mut h = TestHandler::new();
    let mut fsm = StateMachine::new(ip(), Vec::new(), true, false);
    let r = step(&mut fsm, &mut h, "EHLO mx\r\n");
    assert_eq!(r.code, 250);
    assert_eq!(r.message, "server offers extensions:");
    assert_eq!(r.lines, vec!["8BITMIME", "STARTTLS"]);
}

#[test]
fn auth_plain_over_tls() {
    let mut h = TestHandler::new();
    let mut fsm = StateMachine::new(ip(), vec![AuthMechanism::Plain], true, false);
    let r = step(&mut fsm, &mut h, "EHLO mx\r\n");
    // plaintext AUTH is not allowed, so only STARTTLS is offered
    assert_eq!(r.lines, vec!["8BITMIME", "STARTTLS"]);
    assert!(matches!(fsm.current_state(), SmtpState::HelloAuth { .. }));
    let r = step(&mut fsm, &mut h, "STARTTLS\r\n");
    assert_eq!(r.code, 220);
    assert_eq!(r.action, Action::UpgradeTls);
    assert!(matches!(fsm.current_state(), SmtpState::Idle));
    // the transport performs the handshake, then injects StartedTls
    let r = fsm.command(&mut h, Cmd::StartedTls);
    assert_eq!(r.action, Action::NoReply);
    let r = step(&mut fsm, &mut h, "EHLO mx\r\n");
    assert_eq!(r.lines, vec!["8BITMIME", "AUTH PLAIN"]);
    // base64 of NUL user NUL pw
    let r = step(&mut fsm, &mut h, "AUTH PLAIN AHVzZXIAcHc=\r\n");
    assert_eq!(r.code, 235);
    assert!(matches!(fsm.current_state(), SmtpState::Hello { .. }));
    assert!(h.calls.contains(&String::from("auth_plain |user|pw")));
    assert_eq!(step(&mut fsm, &mut h, "MAIL FROM:<a@x>\r\n").code, 250);
    assert!(matches!(fsm.current_state(), SmtpState::Mail { .. }));
}

#[test]
fn auth_login_two_turns() {
    let mut h = TestHandler::new();
    let mut fsm = StateMachine::new(ip(), vec![AuthMechanism::Login], false, true);
    step(&mut fsm, &mut h, "EHLO mx\r\n");
    assert!(matches!(fsm.current_state(), SmtpState::HelloAuth { .. }));
    let r = step(&mut fsm, &mut h, "AUTH LOGIN\r\n");
    assert_eq!(r.code, 334);
    assert_eq!(r.message, "VXNlcm5hbWU6");
    assert!(matches!(
        fsm.current_state(),
        SmtpState::Auth { username: None, .. }
    ));
    let r = step(&mut fsm, &mut h, "dXNlcg==\r\n");
    assert_eq!(r.code, 334);
    assert_eq!(r.message, "UGFzc3dvcmQ6");
    assert!(matches!(
        fsm.current_state(),
        SmtpState::Auth { username: Some(_), .. }
    ));
    let r = step(&mut fsm, &mut h, "cHc=\r\n");
    assert_eq!(r.code, 235);
    assert!(matches!(fsm.current_state(), SmtpState::Hello { .. }));
    assert!(h.calls.contains(&String::from("auth_login user|pw")));
}

#[test]
fn auth_login_initial_response_two_replies() {
    let mut h = TestHandler::new();
    let mut fsm = StateMachine::new(ip(), vec![AuthMechanism::Login], false, true);
    step(&mut fsm, &mut h, "EHLO mx\r\n");
    // initial response carries the username: the username turn is skipped
    let r = step(&mut fsm, &mut h, "AUTH LOGIN dXNlcg==\r\n");
    assert_eq!(r.code, 334);
    assert_eq!(r.message, "UGFzc3dvcmQ6");
    let r = step(&mut fsm, &mut h, "cHc=\r\n");
    assert_eq!(r.code, 235);
    assert!(matches!(fsm.current_state(), SmtpState::Hello { .. }));
}

#[test]
fn auth_login_bad_password_stays_unauthenticated() {
    let mut h = TestHandler::new();
    let mut fsm = StateMachine::new(ip(), vec![AuthMechanism::Login], false, true);
    step(&mut fsm, &mut h, "EHLO mx\r\n");
    step(&mut fsm, &mut h, "AUTH LOGIN dXNlcg==\r\n");
    // wrong password: base64 of "nonul"
    let r = step(&mut fsm, &mut h, "bm9udWw=\r\n");
    assert_eq!(r.code, 535);
    assert!(matches!(fsm.current_state(), SmtpState::HelloAuth { .. }));
    // MAIL is still blocked
    assert_eq!(step(&mut fsm, &mut h, "MAIL FROM:<a@x>\r\n").code, 503);
}

#[test]
fn sequence_error_from_idle() {
    let mut h = TestHandler::new();
    let mut fsm = StateMachine::new(ip(), Vec::new(), false, false);
    let r = step(&mut fsm, &mut h, "MAIL FROM:<x@y>\r\n");
    assert_eq!(r.code, 503);
    assert!(r.is_error);
    assert!(matches!(fsm.current_state(), SmtpState::Idle));
    assert!(h.calls.is_empty());
}

#[test]
fn data_dot_stuffing() {
    let mut h = TestHandler::new();
    let mut fsm = StateMachine::new(ip(), Vec::new(), false, false);
    step(&mut fsm, &mut h, "HELO mx\r\n");
    step(&mut fsm, &mut h, "MAIL FROM:<a@x>\r\n");
    step(&mut fsm, &mut h, "RCPT TO:<b@y>\r\n");
    step(&mut fsm, &mut h, "DATA\r\n");
    fsm.process_line(&mut h, b"..leading dot\r\n");
    fsm.process_line(&mut h, b"real\r\n");
    let r = step(&mut fsm, &mut h, ".\r\n");
    assert_eq!(r.code, 250);
    assert_eq!(
        h.chunks,
        vec![b".leading dot\r\n".to_vec(), b"real\r\n".to_vec()]
    );
    assert_eq!(h.calls.last().unwrap(), "data_end");
}

#[test]
fn data_round_trip_counts_chunks() {
    let mut h = TestHandler::new();
    let mut fsm = StateMachine::new(ip(), Vec::new(), false, false);
    step(&mut fsm, &mut h, "HELO mx\r\n");
    step(&mut fsm, &mut h, "MAIL FROM:<a@x>\r\n");
    step(&mut fsm, &mut h, "RCPT TO:<b@y>\r\n");
    step(&mut fsm, &mut h, "DATA\r\n");
    let body = ["one\r\n", "two\r\n", ".stuffed\r\n", "three\r\n"];
    for l in body {
        fsm.process_line(&mut h, l.as_bytes());
    }
    step(&mut fsm, &mut h, ".\r\n");
    let data_calls = h.calls.iter().filter(|c| c.as_str() == "data").count();
    assert_eq!(data_calls, body.len());
    assert_eq!(h.chunks[2], b"stuffed\r\n".to_vec());
    assert_eq!(h.calls.iter().filter(|c| c.as_str() == "data_end").count(), 1);
}

#[test]
fn data_sink_error_fails_transaction() {
    let mut h = TestHandler::new();
    h.reject_data_chunks = true;
    let mut fsm = StateMachine::new(ip(), Vec::new(), false, false);
    step(&mut fsm, &mut h, "HELO mx\r\n");
    step(&mut fsm, &mut h, "MAIL FROM:<a@x>\r\n");
    step(&mut fsm, &mut h, "RCPT TO:<b@y>\r\n");
    step(&mut fsm, &mut h, "DATA\r\n");
    let r = match fsm.process_line(&mut h, b"hi\r\n") {
        LineOutcome::Reply(r) => r,
        _ => panic!("body line must be consumed"),
    };
    assert_eq!(r.code, 554);
    assert!(r.is_error);
    // the body is discarded and the session returns to Hello
    assert!(matches!(fsm.current_state(), SmtpState::Hello { .. }));
}

#[test]
fn rset_preserves_domain() {
    let mut h = TestHandler::new();
    let mut fsm = StateMachine::new(ip(), Vec::new(), false, false);
    step(&mut fsm, &mut h, "HELO mx\r\n");
    step(&mut fsm, &mut h, "MAIL FROM:<a@x>\r\n");
    step(&mut fsm, &mut h, "RCPT TO:<b@y>\r\n");
    let r = step(&mut fsm, &mut h, "RSET\r\n");
    assert_eq!(r.code, 250);
    match fsm.current_state() {
        SmtpState::Hello { domain } => assert_eq!(domain, "mx"),
        other => panic!("expected Hello, got {:?}", state_name(other)),
    }
    // MAIL succeeds again without re-HELO
    assert_eq!(step(&mut fsm, &mut h, "MAIL FROM:<c@z>\r\n").code, 250);
}

#[test]
fn rset_with_auth_returns_to_hello_auth() {
    let mut h = TestHandler::new();
    let mut fsm = StateMachine::new(ip(), vec![AuthMechanism::Plain], false, true);
    step(&mut fsm, &mut h, "EHLO mx\r\n");
    let r = step(&mut fsm, &mut h, "RSET\r\n");
    assert_eq!(r.code, 250);
    match fsm.current_state() {
        SmtpState::HelloAuth { domain } => assert_eq!(domain, "mx"),
        other => panic!("expected HelloAuth, got {:?}", state_name(other)),
    }
}

#[test]
fn error_reply_does_not_advance_state() {
    let mut h = TestHandler::new();
    h.reject_rcpt = true;
    let mut fsm = StateMachine::new(ip(), Vec::new(), false, false);
    step(&mut fsm, &mut h, "HELO mx\r\n");
    step(&mut fsm, &mut h, "MAIL FROM:<a@x>\r\n");
    let r = step(&mut fsm, &mut h, "RCPT TO:<b@y>\r\n");
    assert_eq!(r.code, 550);
    assert!(matches!(fsm.current_state(), SmtpState::Mail { .. }));
    // a later, accepted recipient advances
    h.reject_rcpt = false;
    assert_eq!(step(&mut fsm, &mut h, "RCPT TO:<c@z>\r\n").code, 250);
    assert!(matches!(fsm.current_state(), SmtpState::Rcpt { .. }));
}

#[test]
fn requires_auth_blocks_mail_and_helo() {
    let mut h = TestHandler::new();
    let mut fsm = StateMachine::new(ip(), vec![AuthMechanism::Plain], false, true);
    // HELO is refused outright when authentication is configured
    let r = step(&mut fsm, &mut h, "HELO mx\r\n");
    assert_eq!(r.code, 550);
    let r = step(&mut fsm, &mut h, "EHLO mx\r\n");
    assert_eq!(r.code, 250);
    assert!(r.lines.contains(&String::from("AUTH PLAIN")));
    // MAIL yields 503 until authenticated
    assert_eq!(step(&mut fsm, &mut h, "MAIL FROM:<a@x>\r\n").code, 503);
    assert!(matches!(fsm.current_state(), SmtpState::HelloAuth { .. }));
    let r = step(&mut fsm, &mut h, "AUTH PLAIN AHVzZXIAcHc=\r\n");
    assert_eq!(r.code, 235);
    assert_eq!(step(&mut fsm, &mut h, "MAIL FROM:<a@x>\r\n").code, 250);
}

#[test]
fn ehlo_lists_both_mechanisms_in_order() {
    let mut h = TestHandler::new();
    let mut fsm = StateMachine::new(
        ip(),
        vec![AuthMechanism::Plain, AuthMechanism::Login],
        false,
        true,
    );
    let r = step(&mut fsm, &mut h, "EHLO mx\r\n");
    assert_eq!(r.lines, vec!["8BITMIME", "AUTH PLAIN LOGIN"]);
}

#[test]
fn vrfy_and_noop() {
    let mut h = TestHandler::new();
    let mut fsm = StateMachine::new(ip(), Vec::new(), false, false);
    step(&mut fsm, &mut h, "HELO mx\r\n");
    assert_eq!(step(&mut fsm, &mut h, "VRFY someone\r\n").code, 252);
    assert_eq!(step(&mut fsm, &mut h, "NOOP\r\n").code, 250);
    assert!(matches!(fsm.current_state(), SmtpState::Hello { .. }));
}

fn state_name(s: &SmtpState) -> &'static str {
    match s {
        SmtpState::Idle => "Idle",
        SmtpState::Hello { .. } => "Hello",
        SmtpState::HelloAuth { .. } => "HelloAuth",
        SmtpState::Auth { .. } => "Auth",
        SmtpState::Mail { .. } => "Mail",
        SmtpState::Rcpt { .. } => "Rcpt",
        SmtpState::Data { .. } => "Data",
        SmtpState::Invalid => "Invalid",
    }
}

#[test]
fn auth_refused_without_tls_or_plaintext_leave() {
    let mut h = TestHandler::new();
    // PLAIN is configured, but neither plaintext AUTH nor active TLS allows it
    let mut fsm = StateMachine::new(ip(), vec![AuthMechanism::Plain], true, false);
    step(&mut fsm, &mut h, "EHLO mx\r\n");
    let r = step(&mut fsm, &mut h, "AUTH PLAIN AHVzZXIAcHc=\r\n");
    assert_eq!(r.code, 503);
    assert!(matches!(fsm.current_state(), SmtpState::HelloAuth { .. }));
    // a mechanism that is not configured is refused even where allowed
    let mut fsm = StateMachine::new(ip(), vec![AuthMechanism::Plain], false, true);
    step(&mut fsm, &mut h, "EHLO mx\r\n");
    let r = step(&mut fsm, &mut h, "AUTH LOGIN\r\n");
    assert_eq!(r.code, 503);
}

#[test]
fn garbage_auth_line_fails_authentication() {
    let mut h = TestHandler::new();
    let mut fsm = StateMachine::new(ip(), vec![AuthMechanism::Plain], false, true);
    step(&mut fsm, &mut h, "EHLO mx\r\n");
    let r = step(&mut fsm, &mut h, "AUTH PLAIN\r\n");
    assert_eq!(r.code, 334);
    // not base64: decodes to empty credentials, which the handler
    // rejects, and the exchange ends
    let r = step(&mut fsm, &mut h, "not base64!\r\n");
    assert_eq!(r.code, 535);
    assert!(matches!(fsm.current_state(), SmtpState::HelloAuth { .. }));
    assert!(h.calls.contains(&String::from("auth_plain ||")));
}

#[test]
fn ehlo_without_tls_or_auth_lists_only_8bitmime() {
    let mut h = TestHandler::new();
    let mut fsm = StateMachine::new(ip(), Vec::new(), false, false);
    let r = step(&mut fsm, &mut h, "EHLO mx\r\n");
    assert_eq!(r.lines, vec!["8BITMIME"]);
}

#[test]
fn re_greeting_resets_the_transaction() {
    let mut h = TestHandler::new();
    let mut fsm = StateMachine::new(ip(), Vec::new(), false, false);
    step(&mut fsm, &mut h, "HELO one\r\n");
    step(&mut fsm, &mut h, "MAIL FROM:<a@x>\r\n");
    // HELO is accepted mid-transaction and starts over
    let r = step(&mut fsm, &mut h, "HELO two\r\n");
    assert_eq!(r.code, 250);
    match fsm.current_state() {
        SmtpState::Hello { domain } => assert_eq!(domain, "two"),
        _ => panic!("expected Hello"),
    }
}
