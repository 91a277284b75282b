//! The command parser and the SASL decoders on concrete inputs.

use mailin::parser::{parse, parse_auth_response};
use mailin::sasl::{base64_decode, decode_sasl_login, decode_sasl_plain};
use mailin::Cmd;

#[test]
fn parses_helo_and_ehlo_case_insensitively() {
    match parse(b"helo Mx.Example\r\n") {
        Ok(Cmd::Helo { domain }) => assert_eq!(domain, "Mx.Example"),
        other => panic!("unexpected {:?}", kind(&other)),
    }
    match parse(b"EhLo mx\r\n") {
        Ok(Cmd::Ehlo { domain }) => assert_eq!(domain, "mx"),
        other => panic!("unexpected {:?}", kind(&other)),
    }
}

#[test]
fn parses_mail_with_8bitmime() {
    match parse(b"MAIL FROM:<a@x>\r\n") {
        Ok(Cmd::Mail { reverse_path, is8bit }) => {
            assert_eq!(reverse_path, "a@x");
            assert!(!is8bit);
        },
        other => panic!("unexpected {:?}", kind(&other)),
    }
    match parse(b"mail from:<a@x> body=8bitmime\r\n") {
        Ok(Cmd::Mail { reverse_path, is8bit }) => {
            assert_eq!(reverse_path, "a@x");
            assert!(is8bit);
        },
        other => panic!("unexpected {:?}", kind(&other)),
    }
    // the null reverse path is legal
    match parse(b"MAIL FROM:<>\r\n") {
        Ok(Cmd::Mail { reverse_path, .. }) => assert_eq!(reverse_path, ""),
        other => panic!("unexpected {:?}", kind(&other)),
    }
}

#[test]
fn parses_rcpt_and_simple_verbs() {
    match parse(b"RCPT TO:<b@y>\r\n") {
        Ok(Cmd::Rcpt { forward_path }) => assert_eq!(forward_path, "b@y"),
        other => panic!("unexpected {:?}", kind(&other)),
    }
    assert!(matches!(parse(b"DATA\r\n"), Ok(Cmd::Data)));
    assert!(matches!(parse(b"rset\r\n"), Ok(Cmd::Rset)));
    assert!(matches!(parse(b"QUIT\r\n"), Ok(Cmd::Quit)));
    assert!(matches!(parse(b"NOOP\r\n"), Ok(Cmd::Noop)));
    assert!(matches!(parse(b"STARTTLS\r\n"), Ok(Cmd::StartTls)));
    assert!(matches!(parse(b"VRFY\r\n"), Ok(Cmd::Vrfy)));
    assert!(matches!(parse(b"VRFY someone\r\n"), Ok(Cmd::Vrfy)));
}

#[test]
fn parses_auth_forms() {
    assert!(matches!(parse(b"AUTH PLAIN\r\n"), Ok(Cmd::AuthPlainEmpty)));
    assert!(matches!(parse(b"AUTH LOGIN\r\n"), Ok(Cmd::AuthLoginEmpty)));
    match parse(b"AUTH PLAIN AHVzZXIAcHc=\r\n") {
        Ok(Cmd::AuthPlain { authorization_id, authentication_id, password }) => {
            assert_eq!(authorization_id, "");
            assert_eq!(authentication_id, "user");
            assert_eq!(password, "pw");
        },
        other => panic!("unexpected {:?}", kind(&other)),
    }
    match parse(b"AUTH LOGIN dXNlcg==\r\n") {
        Ok(Cmd::AuthLogin { username }) => assert_eq!(username, "user"),
        other => panic!("unexpected {:?}", kind(&other)),
    }
    // an unknown mechanism is a parameter error
    match parse(b"AUTH CRAM-MD5\r\n") {
        Err(r) => assert_eq!(r.code, 501),
        other => panic!("unexpected {:?}", kind(&other)),
    }
}

#[test]
fn rejects_malformed_lines() {
    // no CRLF
    match parse(b"HELO mx") {
        Err(r) => {
            assert_eq!(r.code, 500);
            assert!(r.is_error);
        },
        other => panic!("unexpected {:?}", kind(&other)),
    }
    // unknown verb
    match parse(b"TURN\r\n") {
        Err(r) => assert_eq!(r.code, 500),
        other => panic!("unexpected {:?}", kind(&other)),
    }
    // HELO without an argument
    match parse(b"HELO\r\n") {
        Err(r) => assert_eq!(r.code, 500),
        other => panic!("unexpected {:?}", kind(&other)),
    }
    // a path without angle brackets
    match parse(b"MAIL FROM:a@x\r\n") {
        Err(r) => assert_eq!(r.code, 501),
        other => panic!("unexpected {:?}", kind(&other)),
    }
    // an empty domain after the space
    match parse(b"HELO \r\n") {
        Err(r) => assert_eq!(r.code, 501),
        other => panic!("unexpected {:?}", kind(&other)),
    }
}

#[test]
fn auth_response_wraps_the_line() {
    assert_eq!(parse_auth_response(b"dXNlcg==\r\n").unwrap(), b"dXNlcg==".to_vec());
    assert_eq!(parse_auth_response(b"\r\n").unwrap(), Vec::<u8>::new());
    // even a non-base64 line is wrapped: the SASL decoders turn it
    // into empty credentials, and authentication fails downstream
    assert_eq!(
        parse_auth_response(b"not base64!\r\n").unwrap(),
        b"not base64!".to_vec()
    );
    match parse_auth_response(b"dXNlcg==") {
        Err(r) => assert_eq!(r.code, 500),
        other => panic!("unexpected {:?}", other.is_ok()),
    }
}

#[test]
fn base64_decodes_blocks_and_padding() {
    assert_eq!(base64_decode(b"TWFu").unwrap(), b"Man".to_vec());
    assert_eq!(base64_decode(b"TWE=").unwrap(), b"Ma".to_vec());
    assert_eq!(base64_decode(b"TQ==").unwrap(), b"M".to_vec());
    assert_eq!(base64_decode(b"").unwrap(), Vec::<u8>::new());
    assert_eq!(
        base64_decode(b"AHVzZXIAcHc=").unwrap(),
        b"\x00user\x00pw".to_vec()
    );
    assert!(base64_decode(b"TWF").is_none());
    assert!(base64_decode(b"TW!u").is_none());
}

#[test]
fn sasl_decoders_fail_to_empty_credentials() {
    let ok = decode_sasl_plain(b"AHVzZXIAcHc=");
    assert_eq!(ok.authorization_id, "");
    assert_eq!(ok.authentication_id, "user");
    assert_eq!(ok.password, "pw");
    // not base64 at all
    let bad = decode_sasl_plain(b"!!");
    assert_eq!(bad.authentication_id, "");
    assert_eq!(bad.password, "");
    // no NUL separators: base64 of "nonul"
    let bad = decode_sasl_plain(b"bm9udWw=");
    assert_eq!(bad.authentication_id, "");
    // three NULs: base64 of "a\0b\0c\0d"
    let bad = decode_sasl_plain(b"YQBiAGMAZA==");
    assert_eq!(bad.authentication_id, "");
    // invalid UTF-8 in a part: base64 of 00 FF 00 FE
    let bad = decode_sasl_plain(b"AP8A/g==");
    assert_eq!(bad.authentication_id, "");
    assert_eq!(decode_sasl_login(b"dXNlcg=="), "user");
    assert_eq!(decode_sasl_login(b"!!"), "");
}

fn kind<T>(r: &Result<Cmd, T>) -> &'static str {
    match r {
        Ok(Cmd::Helo { .. }) => "Helo",
        Ok(Cmd::Ehlo { .. }) => "Ehlo",
        Ok(Cmd::Mail { .. }) => "Mail",
        Ok(Cmd::Rcpt { .. }) => "Rcpt",
        Ok(Cmd::Data) => "Data",
        Ok(Cmd::DataEnd) => "DataEnd",
        Ok(Cmd::Rset) => "Rset",
        Ok(Cmd::Quit) => "Quit",
        Ok(Cmd::Noop) => "Noop",
        Ok(Cmd::Vrfy) => "Vrfy",
        Ok(Cmd::StartTls) => "StartTls",
        Ok(Cmd::StartedTls) => "StartedTls",
        Ok(Cmd::AuthPlain { .. }) => "AuthPlain",
        Ok(Cmd::AuthPlainEmpty) => "AuthPlainEmpty",
        Ok(Cmd::AuthLogin { .. }) => "AuthLogin",
        Ok(Cmd::AuthLoginEmpty) => "AuthLoginEmpty",
        Ok(Cmd::AuthResponse { .. }) => "AuthResponse",
        Err(_) => "Err",
    }
}
