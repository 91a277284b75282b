//! The command vocabulary of the engine, the peer address type, and the
//! handler interface through which the session reports envelope fields,
//! body chunks and authentication attempts to its host.

use crate::response::{Response, ResponseModel};
use vstd::prelude::*;

verus! {

/// The peer's address, as plain values. The transport converts from its
/// own socket address type at construction.
#[derive(Clone, Copy, PartialEq, Eq, Structural, Debug)]
pub enum IpAddress {
    V4(u8, u8, u8, u8),
    V6(u128),
}

/// A SASL mechanism the server may offer.
#[derive(Clone, Copy, PartialEq, Eq, Structural, Debug)]
pub enum AuthMechanism {
    Plain,
    Login,
}

impl AuthMechanism {
    /// The word under which the mechanism is advertised in the EHLO
    /// `AUTH` line.
    pub open spec fn extension_word(self) -> Seq<char> {
        match self {
            AuthMechanism::Plain => "PLAIN"@,
            AuthMechanism::Login => "LOGIN"@,
        }
    }

    /// The word under which the mechanism is advertised.
    pub fn extension(&self) -> (r: &'static str)
        ensures
            r@ == self.extension_word(),
    {
        match self {
            AuthMechanism::Plain => "PLAIN",
            AuthMechanism::Login => "LOGIN",
        }
    }
}

/// One classified client command.
pub enum Cmd {
    Helo { domain: String },
    Ehlo { domain: String },
    Mail { reverse_path: String, is8bit: bool },
    Rcpt { forward_path: String },
    Data,
    /// Produced by the DATA framing when the terminating `.` line
    /// arrives; never parsed from a command line.
    DataEnd,
    Rset,
    Quit,
    Noop,
    Vrfy,
    StartTls,
    /// Synthetic: the transport injects it after a completed TLS
    /// handshake; no client can issue it.
    StartedTls,
    AuthPlain { authorization_id: String, authentication_id: String, password: String },
    AuthPlainEmpty,
    AuthLogin { username: String },
    AuthLoginEmpty,
    /// A raw base64 line inside a pending AUTH exchange.
    AuthResponse { response: Vec<u8> },
}

/// The mathematical value of a [`Cmd`].
pub ghost enum CmdModel {
    Helo { domain: Seq<char> },
    Ehlo { domain: Seq<char> },
    Mail { reverse_path: Seq<char>, is8bit: bool },
    Rcpt { forward_path: Seq<char> },
    Data,
    DataEnd,
    Rset,
    Quit,
    Noop,
    Vrfy,
    StartTls,
    StartedTls,
    AuthPlain { authorization_id: Seq<char>, authentication_id: Seq<char>, password: Seq<char> },
    AuthPlainEmpty,
    AuthLogin { username: Seq<char> },
    AuthLoginEmpty,
    AuthResponse { response: Seq<u8> },
}

impl View for Cmd {
    type V = CmdModel;

    open spec fn view(&self) -> CmdModel {
        match self {
            Cmd::Helo { domain } => CmdModel::Helo { domain: domain@ },
            Cmd::Ehlo { domain } => CmdModel::Ehlo { domain: domain@ },
            Cmd::Mail { reverse_path, is8bit } => CmdModel::Mail {
                reverse_path: reverse_path@,
                is8bit: *is8bit,
            },
            Cmd::Rcpt { forward_path } => CmdModel::Rcpt { forward_path: forward_path@ },
            Cmd::Data => CmdModel::Data,
            Cmd::DataEnd => CmdModel::DataEnd,
            Cmd::Rset => CmdModel::Rset,
            Cmd::Quit => CmdModel::Quit,
            Cmd::Noop => CmdModel::Noop,
            Cmd::Vrfy => CmdModel::Vrfy,
            Cmd::StartTls => CmdModel::StartTls,
            Cmd::StartedTls => CmdModel::StartedTls,
            Cmd::AuthPlain { authorization_id, authentication_id, password } => {
                CmdModel::AuthPlain {
                    authorization_id: authorization_id@,
                    authentication_id: authentication_id@,
                    password: password@,
                }
            },
            Cmd::AuthPlainEmpty => CmdModel::AuthPlainEmpty,
            Cmd::AuthLogin { username } => CmdModel::AuthLogin { username: username@ },
            Cmd::AuthLoginEmpty => CmdModel::AuthLoginEmpty,
            Cmd::AuthResponse { response } => CmdModel::AuthResponse { response: response@ },
        }
    }
}

/// One observable call on a [`Handler`]: its arguments, and what the
/// handler answered.
pub ghost enum HandlerEvent {
    Helo { ip: IpAddress, domain: Seq<char>, reply: ResponseModel },
    MailFrom {
        ip: IpAddress,
        domain: Seq<char>,
        reverse_path: Seq<char>,
        reply: ResponseModel,
    },
    RcptTo { forward_path: Seq<char>, reply: ResponseModel },
    DataStart {
        domain: Seq<char>,
        reverse_path: Seq<char>,
        is8bit: bool,
        forward_paths: Seq<Seq<char>>,
        reply: ResponseModel,
    },
    DataChunk { bytes: Seq<u8>, accepted: bool },
    DataEnd { reply: ResponseModel },
    AuthPlain {
        authorization_id: Seq<char>,
        authentication_id: Seq<char>,
        password: Seq<char>,
        reply: ResponseModel,
    },
    AuthLogin { username: Seq<char>, password: Seq<char>, reply: ResponseModel },
}

/// The collaborator that validates envelope fields, stores the message
/// body and checks credentials. The engine treats it as opaque: any
/// reply may come back, and the engine's own contracts say what happens
/// for every reply. The ghost `events` sequence records each call with
/// its arguments, so that properties such as "each body line reaches
/// `data` exactly once, unstuffed" can be stated and proved. Each
/// event also records the handler's own answer, so the engine's
/// contracts can say that the reply a command returns, and the
/// transition it fires, follow from what the handler answered.
pub trait Handler {
    spec fn events(&self) -> Seq<HandlerEvent>;

    /// Validate the greeting domain. Code 250 accepts it.
    fn helo(&mut self, ip: IpAddress, domain: &str) -> (r: Response)
        ensures
            final(self).events() == old(self).events().push(
                HandlerEvent::Helo { ip, domain: domain@, reply: r@ },
            ),
    ;

    /// Accept or reject the sender.
    fn mail(&mut self, ip: IpAddress, domain: &str, reverse_path: &str) -> (r: Response)
        ensures
            final(self).events() == old(self).events().push(
                HandlerEvent::MailFrom {
                    ip,
                    domain: domain@,
                    reverse_path: reverse_path@,
                    reply: r@,
                },
            ),
    ;

    /// Accept or reject one recipient.
    fn rcpt(&mut self, forward_path: &str) -> (r: Response)
        ensures
            final(self).events() == old(self).events().push(
                HandlerEvent::RcptTo { forward_path: forward_path@, reply: r@ },
            ),
    ;

    /// The body is about to arrive. A non-error reply makes the engine
    /// answer `354 Start mail input`.
    fn data_start(
        &mut self,
        domain: &str,
        reverse_path: &str,
        is8bit: bool,
        forward_paths: &Vec<String>,
    ) -> (r: Response)
        ensures
            final(self).events() == old(self).events().push(
                HandlerEvent::DataStart {
                    domain: domain@,
                    reverse_path: reverse_path@,
                    is8bit,
                    forward_paths: forward_paths.deep_view(),
                    reply: r@,
                },
            ),
    ;

    /// Append one body chunk; `Err` aborts the transaction.
    fn data(&mut self, buf: &[u8]) -> (r: Result<(), ()>)
        ensures
            final(self).events() == old(self).events().push(
                HandlerEvent::DataChunk { bytes: buf@, accepted: r is Ok },
            ),
    ;

    /// Finalize the message; a 250 reply typically carries a queue id.
    fn data_end(&mut self) -> (r: Response)
        ensures
            final(self).events() == old(self).events().push(HandlerEvent::DataEnd { reply: r@ }),
    ;

    /// Check a PLAIN credential triple. Code 235 means success.
    fn auth_plain(
        &mut self,
        authorization_id: &str,
        authentication_id: &str,
        password: &str,
    ) -> (r: Response)
        ensures
            final(self).events() == old(self).events().push(
                HandlerEvent::AuthPlain {
                    authorization_id: authorization_id@,
                    authentication_id: authentication_id@,
                    password: password@,
                    reply: r@,
                },
            ),
    ;

    /// Check a LOGIN username and password. Code 235 means success.
    fn auth_login(&mut self, username: &str, password: &str) -> (r: Response)
        ensures
            final(self).events() == old(self).events().push(
                HandlerEvent::AuthLogin { username: username@, password: password@, reply: r@ },
            ),
    ;
}

} // verus!
