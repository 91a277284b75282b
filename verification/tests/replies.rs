//! The reply catalog and the lookup helpers on concrete values.

use mailin::resolve::{partition_answers, query_string};
use mailin::{Action, IpAddress, Response};

#[test]
fn catalog_codes_and_flags() {
    let ok = Response::ok();
    assert_eq!((ok.code, ok.is_error, ok.action), (250, false, Action::Continue));
    let bye = Response::goodbye();
    assert_eq!((bye.code, bye.is_error, bye.action), (221, false, Action::Close));
    let tls = Response::start_tls();
    assert_eq!((tls.code, tls.action), (220, Action::UpgradeTls));
    let data = Response::start_data();
    assert_eq!(data.code, 354);
    let seq = Response::bad_sequence();
    assert_eq!((seq.code, seq.is_error), (503, true));
    let fail = Response::transaction_failed();
    assert_eq!((fail.code, fail.is_error), (554, true));
    let empty = Response::empty();
    assert_eq!((empty.code, empty.action), (0, Action::NoReply));
}

#[test]
fn custom_reply_error_flag_follows_code() {
    assert!(!Response::custom(250, String::from("fine")).is_error);
    assert!(!Response::custom(354, String::from("go on")).is_error);
    assert!(Response::custom(421, String::from("shutting down")).is_error);
    assert!(Response::custom(550, String::from("no")).is_error);
    assert!(Response::custom(101, String::from("odd")).is_error);
}

#[test]
fn query_string_decodes_names() {
    assert_eq!(query_string(b"example.com"), "example.com");
    assert_eq!(query_string(b""), "");
    // invalid UTF-8 is replaced, not dropped
    assert_eq!(query_string(&[0xff, b'A']), "\u{fffd}A");
}

#[test]
fn partition_answers_chooses_like_the_resolver() {
    let a = IpAddress::V4(192, 0, 2, 1);
    let b = IpAddress::V4(192, 0, 2, 2);
    // any parsed record wins, bad ones are dropped
    let r = partition_answers(vec![
        Ok(a),
        Err(String::from("bad record")),
        Ok(b),
    ]);
    assert_eq!(r.unwrap(), vec![a, b]);
    // only errors: the first is reported
    let r = partition_answers(vec![
        Err(String::from("first")),
        Err(String::from("second")),
    ]);
    assert_eq!(r.unwrap_err(), "first");
    // no answer records at all
    let r = partition_answers(Vec::new());
    assert_eq!(r.unwrap(), Vec::<IpAddress>::new());
}
