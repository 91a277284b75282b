//! The session state machine. It owns the session variables (peer
//! address, TLS status, authentication status, offered mechanisms) and
//! the current protocol state, consumes one command or one raw line at
//! a time, and produces exactly one reply for each.
//!
//! Every transition is fixed by [`spec_step`]: the machine after a
//! command, and the reply the command returns, are functions of the
//! machine before it, the command, and the reply the handler answered
//! — nothing else. The handler's answer is recorded in the ghost call
//! log, so the contracts pin the returned reply to it: the engine's
//! own replies exactly, the handler's verbatim, with EHLO's 250 and
//! DATA's 354 substitutions stated as such.

use crate::parser::{auth_response_spec, parse, parse_auth_response, parse_spec};
use crate::response::{bad_hello_model, bad_sequence_model, empty_challenge_model, empty_model,
    goodbye_model, invalid_state_model, ok_model, password_challenge_model, start_data_model,
    start_tls_model, transaction_failed_model, username_challenge_model, verify_model, Action,
    Response, ResponseModel};
use crate::sasl::{decode_sasl_login, decode_sasl_plain, sasl_login_model, sasl_plain_model};
use crate::smtp::{AuthMechanism, Cmd, CmdModel, Handler, HandlerEvent, IpAddress};
use vstd::prelude::*;

verus! {

/// Whether STARTTLS is configured and whether it has completed.
#[derive(Clone, Copy, PartialEq, Eq, Structural, Debug)]
pub enum TlsState {
    Unavailable,
    Inactive,
    Active,
}

/// Whether AUTH is configured and whether it has succeeded.
#[derive(Clone, Copy, PartialEq, Eq, Structural, Debug)]
pub enum AuthState {
    Unavailable,
    RequiresAuth,
    Authenticated,
}

/// The protocol state: the node of the session's finite state
/// machine, with the session identity it has accumulated.
pub enum SmtpState {
    /// Pre-greeting, or after a STARTTLS handshake.
    Idle,
    /// HELO/EHLO received in a session that needs no (further) AUTH.
    Hello { domain: String },
    /// EHLO received where AUTH is required or has just completed.
    HelloAuth { domain: String },
    /// Mid-SASL exchange; `username` is set between the LOGIN turns.
    Auth { domain: String, mechanism: AuthMechanism, username: Option<String> },
    /// MAIL FROM accepted; expecting RCPT.
    Mail { domain: String, reverse_path: String, is8bit: bool },
    /// At least one RCPT accepted; may accept more RCPT or DATA.
    Rcpt { domain: String, reverse_path: String, is8bit: bool, forward_paths: Vec<String> },
    /// Inside the DATA payload; line framing changed.
    Data { domain: String },
    /// Terminal: the session was closed.
    Invalid,
}

/// The mathematical value of an [`SmtpState`].
pub ghost enum StateModel {
    Idle,
    Hello { domain: Seq<char> },
    HelloAuth { domain: Seq<char> },
    Auth { domain: Seq<char>, mechanism: AuthMechanism, username: Option<Seq<char>> },
    Mail { domain: Seq<char>, reverse_path: Seq<char>, is8bit: bool },
    Rcpt {
        domain: Seq<char>,
        reverse_path: Seq<char>,
        is8bit: bool,
        forward_paths: Seq<Seq<char>>,
    },
    Data { domain: Seq<char> },
    Invalid,
}

impl View for SmtpState {
    type V = StateModel;

    open spec fn view(&self) -> StateModel {
        match self {
            SmtpState::Idle => StateModel::Idle,
            SmtpState::Hello { domain } => StateModel::Hello { domain: domain@ },
            SmtpState::HelloAuth { domain } => StateModel::HelloAuth { domain: domain@ },
            SmtpState::Auth { domain, mechanism, username } => StateModel::Auth {
                domain: domain@,
                mechanism: *mechanism,
                username: match username {
                    Some(u) => Some(u@),
                    None => None,
                },
            },
            SmtpState::Mail { domain, reverse_path, is8bit } => StateModel::Mail {
                domain: domain@,
                reverse_path: reverse_path@,
                is8bit: *is8bit,
            },
            SmtpState::Rcpt { domain, reverse_path, is8bit, forward_paths } => StateModel::Rcpt {
                domain: domain@,
                reverse_path: reverse_path@,
                is8bit: *is8bit,
                forward_paths: forward_paths.deep_view(),
            },
            SmtpState::Data { domain } => StateModel::Data { domain: domain@ },
            SmtpState::Invalid => StateModel::Invalid,
        }
    }
}

/// The mathematical value of a [`StateMachine`].
pub ghost struct MachineModel {
    pub ip: IpAddress,
    pub mechanisms: Seq<AuthMechanism>,
    pub auth: AuthState,
    pub tls: TlsState,
    pub has_plain: bool,
    pub has_login: bool,
    pub allow_plaintext: bool,
    pub state: StateModel,
}

/// The machine with another protocol state, all else unchanged.
pub open spec fn with_state(m: MachineModel, st: StateModel) -> MachineModel {
    MachineModel { state: st, ..m }
}

/// AUTH may be used: plaintext is allowed, or TLS protects the
/// credentials.
pub open spec fn auth_allowed(m: MachineModel) -> bool {
    m.allow_plaintext || m.tls == TlsState::Active
}

pub open spec fn auth_plain_allowed(m: MachineModel) -> bool {
    m.has_plain && auth_allowed(m)
}

pub open spec fn auth_login_allowed(m: MachineModel) -> bool {
    m.has_login && auth_allowed(m)
}

/// The authentication status after the handler has spoken: 235 is success,
/// anything else leaves the session unauthenticated.
pub open spec fn auth_outcome(m: MachineModel, res: ResponseModel) -> MachineModel {
    MachineModel {
        auth: if res.code == 235 {
            AuthState::Authenticated
        } else {
            AuthState::RequiresAuth
        },
        ..m
    }
}

/// The response-drives-transition rule: `Close` terminates the
/// session, an error reply leaves the machine as it is, and any other
/// reply lets the prescribed transition fire.
pub open spec fn gate(m: MachineModel, res: ResponseModel, next: StateModel) -> MachineModel {
    if res.action == Action::Close {
        with_state(m, StateModel::Invalid)
    } else if res.is_error {
        m
    } else {
        with_state(m, next)
    }
}

/// The state RSET returns to: `Hello` when AUTH is not configured,
/// else `HelloAuth`; the domain is preserved.
pub open spec fn rset_state(m: MachineModel, domain: Seq<char>) -> StateModel {
    if m.auth == AuthState::Unavailable {
        StateModel::Hello { domain }
    } else {
        StateModel::HelloAuth { domain }
    }
}

/// The `AUTH` extension line: the word AUTH followed by each offered
/// mechanism.
pub open spec fn auth_line(mechs: Seq<AuthMechanism>) -> Seq<char>
    decreases mechs.len(),
{
    if mechs.len() == 0 {
        "AUTH"@
    } else {
        auth_line(mechs.drop_last()) + " "@ + mechs.last().extension_word()
    }
}

/// The extension list of the EHLO reply: always 8BITMIME, STARTTLS
/// exactly when TLS is configured and not yet active, and the AUTH
/// line exactly when AUTH may be used and mechanisms are offered.
pub open spec fn ehlo_lines(m: MachineModel) -> Seq<Seq<char>> {
    let base = seq!["8BITMIME"@];
    let with_tls = if m.tls == TlsState::Inactive {
        base.push("STARTTLS"@)
    } else {
        base
    };
    if auth_allowed(m) && m.mechanisms.len() > 0 {
        with_tls.push(auth_line(m.mechanisms))
    } else {
        with_tls
    }
}

/// The dynamically built EHLO reply.
pub open spec fn ehlo_reply(m: MachineModel) -> ResponseModel {
    ResponseModel {
        code: 250,
        message: "server offers extensions:"@,
        lines: ehlo_lines(m),
        is_error: false,
        action: Action::Continue,
    }
}

/// What one command does, given the reply `hr` that the handler
/// answered where one was consulted (`hr` is immaterial otherwise):
/// the machine afterwards, the reply the command returns, whether the
/// engine pinned that reply without consulting the handler, and the
/// handler calls that were made — each recording `hr` itself.
pub ghost struct StepModel {
    pub post: MachineModel,
    pub reply: ResponseModel,
    pub pinned: bool,
    pub events: Seq<HandlerEvent>,
}

/// A step that consults no handler and whose reply is fixed.
pub open spec fn fixed_step(m: MachineModel, reply: ResponseModel) -> StepModel {
    StepModel { post: m, reply, pinned: true, events: Seq::empty() }
}

/// The commands every non-terminal state falls back to: QUIT, NOOP,
/// re-greeting with HELO/EHLO, and the bad-sequence error for all
/// others.
pub open spec fn default_step(pre: MachineModel, cmd: CmdModel, hr: ResponseModel) -> StepModel {
    match cmd {
        CmdModel::Quit => StepModel {
            post: with_state(pre, StateModel::Invalid),
            reply: goodbye_model(),
            pinned: true,
            events: Seq::empty(),
        },
        CmdModel::Helo { domain } => {
            if pre.auth == AuthState::Unavailable {
                StepModel {
                    post: gate(pre, hr, StateModel::Hello { domain }),
                    reply: hr,
                    pinned: false,
                    events: seq![HandlerEvent::Helo { ip: pre.ip, domain, reply: hr }],
                }
            } else {
                // authentication requires EHLO
                fixed_step(pre, bad_hello_model())
            }
        },
        CmdModel::Ehlo { domain } => {
            // a 250 from the handler is replaced by the extension list
            let r = if hr.code == 250 {
                ehlo_reply(pre)
            } else {
                hr
            };
            StepModel {
                post: gate(
                    pre,
                    r,
                    if pre.auth == AuthState::Unavailable {
                        StateModel::Hello { domain }
                    } else {
                        StateModel::HelloAuth { domain }
                    },
                ),
                reply: r,
                pinned: false,
                events: seq![HandlerEvent::Helo { ip: pre.ip, domain, reply: hr }],
            }
        },
        CmdModel::Noop => fixed_step(pre, ok_model()),
        _ => fixed_step(pre, bad_sequence_model()),
    }
}

/// RSET: reply OK and return to the greeted state, keeping the domain.
pub open spec fn rset_step(pre: MachineModel, domain: Seq<char>) -> StepModel {
    StepModel {
        post: with_state(pre, rset_state(pre, domain)),
        reply: ok_model(),
        pinned: true,
        events: Seq::empty(),
    }
}

/// The transition table. `hr` is the reply the handler answered where
/// one was consulted; rows marked `pinned` never consult it. The
/// reply the command returns is the handler's, except that a 250 to
/// EHLO becomes the extension list and a non-error to DATA becomes
/// `354 Start mail input`.
pub open spec fn spec_step(pre: MachineModel, cmd: CmdModel, hr: ResponseModel) -> StepModel {
    match pre.state {
        StateModel::Invalid => fixed_step(pre, invalid_state_model()),
        StateModel::Idle => match cmd {
            CmdModel::StartedTls => StepModel {
                post: MachineModel { tls: TlsState::Active, ..pre },
                reply: empty_model(),
                pinned: true,
                events: Seq::empty(),
            },
            CmdModel::Rset => fixed_step(pre, ok_model()),
            _ => default_step(pre, cmd, hr),
        },
        StateModel::Hello { domain } => match cmd {
            CmdModel::Mail { reverse_path, is8bit } => StepModel {
                post: gate(pre, hr, StateModel::Mail { domain, reverse_path, is8bit }),
                reply: hr,
                pinned: false,
                events: seq![
                    HandlerEvent::MailFrom { ip: pre.ip, domain, reverse_path, reply: hr },
                ],
            },
            CmdModel::StartTls => {
                if pre.tls == TlsState::Inactive {
                    StepModel {
                        post: with_state(pre, StateModel::Idle),
                        reply: start_tls_model(),
                        pinned: true,
                        events: Seq::empty(),
                    }
                } else {
                    default_step(pre, cmd, hr)
                }
            },
            CmdModel::Vrfy => fixed_step(pre, verify_model()),
            CmdModel::Rset => rset_step(pre, domain),
            _ => default_step(pre, cmd, hr),
        },
        StateModel::HelloAuth { domain } => match cmd {
            CmdModel::StartTls => StepModel {
                post: with_state(pre, StateModel::Idle),
                reply: start_tls_model(),
                pinned: true,
                events: Seq::empty(),
            },
            CmdModel::AuthPlain { authorization_id, authentication_id, password } => {
                if auth_plain_allowed(pre) {
                    StepModel {
                        post: gate(auth_outcome(pre, hr), hr, StateModel::Hello { domain }),
                        reply: hr,
                        pinned: false,
                        events: seq![
                            HandlerEvent::AuthPlain {
                                authorization_id,
                                authentication_id,
                                password,
                                reply: hr,
                            },
                        ],
                    }
                } else {
                    fixed_step(pre, bad_sequence_model())
                }
            },
            CmdModel::AuthPlainEmpty => {
                if auth_plain_allowed(pre) {
                    StepModel {
                        post: with_state(
                            pre,
                            StateModel::Auth {
                                domain,
                                mechanism: AuthMechanism::Plain,
                                username: None,
                            },
                        ),
                        reply: empty_challenge_model(),
                        pinned: true,
                        events: Seq::empty(),
                    }
                } else {
                    fixed_step(pre, bad_sequence_model())
                }
            },
            CmdModel::AuthLogin { username } => {
                if auth_login_allowed(pre) {
                    StepModel {
                        post: with_state(
                            pre,
                            StateModel::Auth {
                                domain,
                                mechanism: AuthMechanism::Login,
                                username: Some(username),
                            },
                        ),
                        reply: password_challenge_model(),
                        pinned: true,
                        events: Seq::empty(),
                    }
                } else {
                    fixed_step(pre, bad_sequence_model())
                }
            },
            CmdModel::AuthLoginEmpty => {
                if auth_login_allowed(pre) {
                    StepModel {
                        post: with_state(
                            pre,
                            StateModel::Auth {
                                domain,
                                mechanism: AuthMechanism::Login,
                                username: None,
                            },
                        ),
                        reply: username_challenge_model(),
                        pinned: true,
                        events: Seq::empty(),
                    }
                } else {
                    fixed_step(pre, bad_sequence_model())
                }
            },
            CmdModel::Rset => rset_step(pre, domain),
            _ => default_step(pre, cmd, hr),
        },
        StateModel::Auth { domain, mechanism, username } => match cmd {
            CmdModel::AuthResponse { response } => match mechanism {
                AuthMechanism::Plain => {
                    let creds = sasl_plain_model(response);
                    StepModel {
                        post: MachineModel {
                            auth: if hr.code == 235 {
                                AuthState::Authenticated
                            } else {
                                AuthState::RequiresAuth
                            },
                            state: if hr.is_error {
                                StateModel::HelloAuth { domain }
                            } else {
                                StateModel::Hello { domain }
                            },
                            ..pre
                        },
                        reply: hr,
                        pinned: false,
                        events: seq![
                            HandlerEvent::AuthPlain {
                                authorization_id: creds.0,
                                authentication_id: creds.1,
                                password: creds.2,
                                reply: hr,
                            },
                        ],
                    }
                },
                AuthMechanism::Login => match username {
                    Some(user) => StepModel {
                        post: MachineModel {
                            auth: if hr.code == 235 {
                                AuthState::Authenticated
                            } else {
                                AuthState::RequiresAuth
                            },
                            state: if hr.is_error {
                                StateModel::HelloAuth { domain }
                            } else {
                                StateModel::Hello { domain }
                            },
                            ..pre
                        },
                        reply: hr,
                        pinned: false,
                        events: seq![
                            HandlerEvent::AuthLogin {
                                username: user,
                                password: sasl_login_model(response),
                                reply: hr,
                            },
                        ],
                    },
                    None => StepModel {
                        post: with_state(
                            pre,
                            StateModel::Auth {
                                domain,
                                mechanism: AuthMechanism::Login,
                                username: Some(sasl_login_model(response)),
                            },
                        ),
                        reply: password_challenge_model(),
                        pinned: true,
                        events: Seq::empty(),
                    },
                },
            },
            _ => fixed_step(pre, bad_sequence_model()),
        },
        StateModel::Mail { domain, reverse_path, is8bit } => match cmd {
            CmdModel::Rcpt { forward_path } => StepModel {
                post: gate(
                    pre,
                    hr,
                    StateModel::Rcpt {
                        domain,
                        reverse_path,
                        is8bit,
                        forward_paths: seq![forward_path],
                    },
                ),
                reply: hr,
                pinned: false,
                events: seq![HandlerEvent::RcptTo { forward_path, reply: hr }],
            },
            CmdModel::Rset => rset_step(pre, domain),
            _ => default_step(pre, cmd, hr),
        },
        StateModel::Rcpt { domain, reverse_path, is8bit, forward_paths } => match cmd {
            CmdModel::Data => {
                // a non-error from the handler becomes 354
                let r = if hr.is_error {
                    hr
                } else {
                    start_data_model()
                };
                StepModel {
                    post: gate(pre, r, StateModel::Data { domain }),
                    reply: r,
                    pinned: false,
                    events: seq![
                        HandlerEvent::DataStart {
                            domain,
                            reverse_path,
                            is8bit,
                            forward_paths,
                            reply: hr,
                        },
                    ],
                }
            },
            CmdModel::Rcpt { forward_path } => StepModel {
                post: gate(
                    pre,
                    hr,
                    StateModel::Rcpt {
                        domain,
                        reverse_path,
                        is8bit,
                        forward_paths: forward_paths.push(forward_path),
                    },
                ),
                reply: hr,
                pinned: false,
                events: seq![HandlerEvent::RcptTo { forward_path, reply: hr }],
            },
            CmdModel::Rset => rset_step(pre, domain),
            _ => default_step(pre, cmd, hr),
        },
        StateModel::Data { domain } => match cmd {
            CmdModel::DataEnd => StepModel {
                post: gate(pre, hr, StateModel::Hello { domain }),
                reply: hr,
                pinned: false,
                events: seq![HandlerEvent::DataEnd { reply: hr }],
            },
            _ => fixed_step(pre, bad_sequence_model()),
        },
    }
}

/// The whole contract of one `command` call: for the reply `hr` that
/// the handler actually answered — recorded inside the appended
/// events, so not free wherever a handler was consulted — the machine
/// moved as the table says, the returned reply is the one the table
/// derives from `hr`, and exactly the prescribed calls were made.
pub open spec fn command_post(
    pre: MachineModel,
    cmd: CmdModel,
    res: ResponseModel,
    post: MachineModel,
    pre_events: Seq<HandlerEvent>,
    post_events: Seq<HandlerEvent>,
) -> bool {
    exists|hr: ResponseModel|
        {
            let st = #[trigger] spec_step(pre, cmd, hr);
            &&& post == st.post
            &&& res == st.reply
            &&& post_events == pre_events + st.events
        }
}

/// The outcome of feeding one raw line: either a classified command
/// for `command`, or an immediate reply.
pub enum LineOutcome {
    Command(Cmd),
    Reply(Response),
}

/// The mathematical value of a [`LineOutcome`].
pub ghost enum LineModel {
    Command(CmdModel),
    Reply(ResponseModel),
}

impl View for LineOutcome {
    type V = LineModel;

    open spec fn view(&self) -> LineModel {
        match self {
            LineOutcome::Command(c) => LineModel::Command(c@),
            LineOutcome::Reply(r) => LineModel::Reply(r@),
        }
    }
}

/// The DATA terminator: a line holding exactly `.` CRLF.
pub open spec fn dot_crlf() -> Seq<u8> {
    seq![46u8, 13u8, 10u8]
}

/// Dot-stuffing reversed: at most one leading dot is stripped.
pub open spec fn unstuff(l: Seq<u8>) -> Seq<u8> {
    if l.len() > 0 && l[0] == 46 {
        l.skip(1)
    } else {
        l
    }
}

/// What one `process_line` call does, given whether the handler
/// accepted the body chunk (`data_ok` matters only for DATA payload
/// lines).
pub ghost struct LineStep {
    pub outcome: LineModel,
    pub post: MachineModel,
    pub events: Seq<HandlerEvent>,
}

pub open spec fn unchanged_line_step(pre: MachineModel, outcome: LineModel) -> LineStep {
    LineStep { outcome, post: pre, events: Seq::empty() }
}

/// The line framing of the current state: a raw base64 line inside an
/// AUTH exchange, terminator detection and dot-unstuffing inside DATA
/// (where every other line goes to the handler), command parsing
/// elsewhere. A rejected chunk fails the transaction with 554 and the
/// session returns to `Hello`, the body discarded.
pub open spec fn line_step(pre: MachineModel, line: Seq<u8>, data_ok: bool) -> LineStep {
    match pre.state {
        StateModel::Invalid => unchanged_line_step(
            pre,
            LineModel::Reply(invalid_state_model()),
        ),
        StateModel::Auth { .. } => match auth_response_spec(line) {
            Ok(payload) => unchanged_line_step(
                pre,
                LineModel::Command(CmdModel::AuthResponse { response: payload }),
            ),
            Err(e) => unchanged_line_step(pre, LineModel::Reply(e)),
        },
        StateModel::Data { domain } => {
            if line == dot_crlf() {
                unchanged_line_step(pre, LineModel::Command(CmdModel::DataEnd))
            } else if data_ok {
                LineStep {
                    outcome: LineModel::Reply(empty_model()),
                    post: pre,
                    events: seq![HandlerEvent::DataChunk { bytes: unstuff(line), accepted: true }],
                }
            } else {
                LineStep {
                    outcome: LineModel::Reply(transaction_failed_model()),
                    post: with_state(pre, StateModel::Hello { domain }),
                    events: seq![
                        HandlerEvent::DataChunk { bytes: unstuff(line), accepted: false },
                    ],
                }
            }
        },
        _ => match parse_spec(line) {
            Ok(c) => unchanged_line_step(pre, LineModel::Command(c)),
            Err(e) => unchanged_line_step(pre, LineModel::Reply(e)),
        },
    }
}

/// The whole contract of one `process_line` call: it behaved as
/// `line_step` says, for what the handler said of the chunk.
pub open spec fn line_post(
    pre: MachineModel,
    line: Seq<u8>,
    outcome: LineModel,
    post: MachineModel,
    pre_events: Seq<HandlerEvent>,
    post_events: Seq<HandlerEvent>,
) -> bool {
    exists|data_ok: bool|
        {
            let st = #[trigger] line_step(pre, line, data_ok);
            &&& outcome == st.outcome
            &&& post == st.post
            &&& post_events == pre_events + st.events
        }
}

/// The machine a fresh session starts with: `Idle`, authentication
/// required exactly when mechanisms are offered, TLS inactive exactly
/// when STARTTLS is configured.
pub open spec fn init_model(
    ip: IpAddress,
    mechanisms: Seq<AuthMechanism>,
    allow_start_tls: bool,
    allow_plaintext: bool,
) -> MachineModel {
    MachineModel {
        ip,
        mechanisms,
        auth: if mechanisms.len() == 0 {
            AuthState::Unavailable
        } else {
            AuthState::RequiresAuth
        },
        tls: if allow_start_tls {
            TlsState::Inactive
        } else {
            TlsState::Unavailable
        },
        has_plain: mechanisms.contains(AuthMechanism::Plain),
        has_login: mechanisms.contains(AuthMechanism::Login),
        allow_plaintext,
        state: StateModel::Idle,
    }
}

/// The per-connection session engine.
pub struct StateMachine {
    ip: IpAddress,
    auth_mechanisms: Vec<AuthMechanism>,
    auth_state: AuthState,
    tls: TlsState,
    smtp: SmtpState,
    auth_plain: bool,
    auth_login: bool,
    insecure_allow_plaintext_auth: bool,
}

impl View for StateMachine {
    type V = MachineModel;

    closed spec fn view(&self) -> MachineModel {
        MachineModel {
            ip: self.ip,
            mechanisms: self.auth_mechanisms@,
            auth: self.auth_state,
            tls: self.tls,
            has_plain: self.auth_plain,
            has_login: self.auth_login,
            allow_plaintext: self.insecure_allow_plaintext_auth,
            state: self.smtp@,
        }
    }
}

/// Whether the mechanism list holds `m`.
fn contains_mech(v: &Vec<AuthMechanism>, m: AuthMechanism) -> (r: bool)
    ensures
        r == v@.contains(m),
{
    let n = v.len();
    let mut i: usize = 0;
    while i < n
        invariant
            i <= n,
            n == v@.len(),
            forall|k: int| 0 <= k < i ==> v@[k] != m,
        decreases n - i,
    {
        if v[i] == m {
            return true;
        }
        i = i + 1;
    }
    false
}

impl StateMachine {
    /// A fresh session for one connection.
    pub fn new(
        ip: IpAddress,
        auth_mechanisms: Vec<AuthMechanism>,
        allow_start_tls: bool,
        insecure_allow_plaintext_auth: bool,
    ) -> (r: StateMachine)
        ensures
            r@ == init_model(
                ip,
                auth_mechanisms@,
                allow_start_tls,
                insecure_allow_plaintext_auth,
            ),
    {
        let auth_state = if auth_mechanisms.len() == 0 {
            AuthState::Unavailable
        } else {
            AuthState::RequiresAuth
        };
        let tls = if allow_start_tls {
            TlsState::Inactive
        } else {
            TlsState::Unavailable
        };
        let auth_plain = contains_mech(&auth_mechanisms, AuthMechanism::Plain);
        let auth_login = contains_mech(&auth_mechanisms, AuthMechanism::Login);
        StateMachine {
            ip,
            auth_mechanisms,
            auth_state,
            tls,
            smtp: SmtpState::Idle,
            auth_plain,
            auth_login,
            insecure_allow_plaintext_auth,
        }
    }

    /// The current protocol state.
    pub fn current_state(&self) -> (r: &SmtpState)
        ensures
            r@ == self@.state,
    {
        &self.smtp
    }

    fn allow_auth(&self) -> (r: bool)
        ensures
            r == auth_allowed(self@),
    {
        self.insecure_allow_plaintext_auth || matches!(self.tls, TlsState::Active)
    }

    fn allow_auth_plain(&self) -> (r: bool)
        ensures
            r == auth_plain_allowed(self@),
    {
        self.auth_plain && self.allow_auth()
    }

    fn allow_auth_login(&self) -> (r: bool)
        ensures
            r == auth_login_allowed(self@),
    {
        self.auth_login && self.allow_auth()
    }

    /// Fire or refuse the prescribed transition, as the reply directs.
    fn apply_gate(&mut self, res: &Response, next: SmtpState)
        ensures
            final(self)@ == gate(old(self)@, res@, next@),
    {
        if matches!(res.action, Action::Close) {
            self.smtp = SmtpState::Invalid;
        } else if res.is_error {
        } else {
            self.smtp = next;
        }
    }

    /// The dynamically built EHLO reply.
    fn ehlo_response(&self) -> (r: Response)
        ensures
            r@ == ehlo_reply(self@),
    {
        let mut extensions: Vec<String> = Vec::new();
        extensions.push(String::from_str("8BITMIME"));
        proof {
            assert(extensions.deep_view() =~= seq!["8BITMIME"@]);
        }
        if matches!(self.tls, TlsState::Inactive) {
            let ghost prev = extensions.deep_view();
            extensions.push(String::from_str("STARTTLS"));
            proof {
                assert(extensions.deep_view() =~= prev.push("STARTTLS"@));
            }
        }
        if self.allow_auth() && self.auth_mechanisms.len() > 0 {
            let ghost prev = extensions.deep_view();
            let mut line = String::from_str("AUTH");
            let n = self.auth_mechanisms.len();
            let mut i: usize = 0;
            while i < n
                invariant
                    i <= n,
                    n == self.auth_mechanisms@.len(),
                    line@ == auth_line(self.auth_mechanisms@.take(i as int)),
                decreases n - i,
            {
                line.append(" ");
                line.append(self.auth_mechanisms[i].extension());
                proof {
                    let mechs = self.auth_mechanisms@;
                    assert(mechs.take(i + 1 as int).drop_last() =~= mechs.take(i as int));
                    assert(mechs.take(i + 1 as int).last() == mechs[i as int]);
                }
                i = i + 1;
            }
            proof {
                assert(self.auth_mechanisms@.take(n as int) =~= self.auth_mechanisms@);
            }
            extensions.push(line);
            proof {
                assert(extensions.deep_view() =~= prev.push(auth_line(self.auth_mechanisms@)));
            }
        }
        Response::dynamic(250, String::from_str("server offers extensions:"), extensions)
    }

    /// RSET: back to the greeted state, domain kept.
    fn do_rset(&mut self, domain: String) -> (res: Response)
        ensures
            final(self)@ == rset_step(old(self)@, domain@).post,
            res@ == ok_model(),
    {
        if matches!(self.auth_state, AuthState::Unavailable) {
            self.smtp = SmtpState::Hello { domain };
        } else {
            self.smtp = SmtpState::HelloAuth { domain };
        }
        Response::ok()
    }

    /// The shared fallback: QUIT, NOOP, HELO, EHLO, and the
    /// bad-sequence error for everything else. The caller owes that
    /// its row of the table is the fallback row.
    fn cmd_default<H: Handler>(&mut self, handler: &mut H, cmd: Cmd) -> (res: Response)
        requires
            forall|hr: ResponseModel| #[trigger] spec_step(old(self)@, cmd@, hr) == default_step(
                old(self)@,
                cmd@,
                hr,
            ),
        ensures
            command_post(
                old(self)@,
                cmd@,
                res@,
                final(self)@,
                old(handler).events(),
                final(handler).events(),
            ),
    {
        match cmd {
            Cmd::Quit => {
                self.smtp = SmtpState::Invalid;
                proof {
                    lemma_plus_empty(old(handler).events());
                    let st = spec_step(old(self)@, cmd@, empty_model());
                }
                Response::goodbye()
            },
            Cmd::Helo { domain } => {
                if matches!(self.auth_state, AuthState::Unavailable) {
                    let res = handler.helo(self.ip, domain.as_str());
                    proof {
                        lemma_push_one(
                            old(handler).events(),
                            HandlerEvent::Helo { ip: old(self)@.ip, domain: domain@, reply: res@ },
                        );
                    }
                    self.apply_gate(&res, SmtpState::Hello { domain });
                    proof {
                        let st = spec_step(old(self)@, cmd@, res@);
                    }
                    res
                } else {
                    proof {
                        lemma_plus_empty(old(handler).events());
                        let st = spec_step(old(self)@, cmd@, empty_model());
                    }
                    Response::bad_hello()
                }
            },
            Cmd::Ehlo { domain } => {
                let mut res = handler.helo(self.ip, domain.as_str());
                let ghost hr = res@;
                proof {
                    lemma_push_one(
                        old(handler).events(),
                        HandlerEvent::Helo { ip: old(self)@.ip, domain: domain@, reply: hr },
                    );
                }
                if res.code == 250 {
                    res = self.ehlo_response();
                }
                let next = if matches!(self.auth_state, AuthState::Unavailable) {
                    SmtpState::Hello { domain }
                } else {
                    SmtpState::HelloAuth { domain }
                };
                self.apply_gate(&res, next);
                proof {
                    let st = spec_step(old(self)@, cmd@, hr);
                }
                res
            },
            Cmd::Noop => {
                proof {
                    lemma_plus_empty(old(handler).events());
                    let st = spec_step(old(self)@, cmd@, empty_model());
                }
                Response::ok()
            },
            _ => {
                proof {
                    lemma_plus_empty(old(handler).events());
                    let st = spec_step(old(self)@, cmd@, empty_model());
                }
                Response::bad_sequence()
            },
        }
    }

    fn cmd_idle<H: Handler>(&mut self, handler: &mut H, cmd: Cmd) -> (res: Response)
        requires
            old(self)@.state is Idle,
        ensures
            command_post(
                old(self)@,
                cmd@,
                res@,
                final(self)@,
                old(handler).events(),
                final(handler).events(),
            ),
    {
        match cmd {
            Cmd::StartedTls => {
                self.tls = TlsState::Active;
                proof {
                    lemma_plus_empty(old(handler).events());
                    let st = spec_step(old(self)@, cmd@, empty_model());
                }
                Response::empty()
            },
            Cmd::Rset => {
                proof {
                    lemma_plus_empty(old(handler).events());
                    let st = spec_step(old(self)@, cmd@, empty_model());
                }
                Response::ok()
            },
            other => {
                proof {
                    assert(forall|hr: ResponseModel|
                        #[trigger] spec_step(old(self)@, other@, hr) == default_step(
                            old(self)@,
                            other@,
                            hr,
                        ));
                }
                self.cmd_default(handler, other)
            },
        }
    }

    fn cmd_hello<H: Handler>(&mut self, handler: &mut H, cmd: Cmd) -> (res: Response)
        requires
            old(self)@.state is Hello,
        ensures
            command_post(
                old(self)@,
                cmd@,
                res@,
                final(self)@,
                old(handler).events(),
                final(handler).events(),
            ),
    {
        let domain = match &self.smtp {
            SmtpState::Hello { domain } => domain.clone(),
            _ => vstd::pervasive::unreached(),
        };
        match cmd {
            Cmd::Mail { reverse_path, is8bit } => {
                let res = handler.mail(self.ip, domain.as_str(), reverse_path.as_str());
                proof {
                    lemma_push_one(
                        old(handler).events(),
                        HandlerEvent::MailFrom {
                            ip: old(self)@.ip,
                            domain: domain@,
                            reverse_path: reverse_path@,
                            reply: res@,
                        },
                    );
                }
                self.apply_gate(&res, SmtpState::Mail { domain, reverse_path, is8bit });
                proof {
                    let st = spec_step(old(self)@, cmd@, res@);
                }
                res
            },
            Cmd::StartTls => {
                if matches!(self.tls, TlsState::Inactive) {
                    self.smtp = SmtpState::Idle;
                    proof {
                        lemma_plus_empty(old(handler).events());
                        let st = spec_step(old(self)@, cmd@, empty_model());
                    }
                    Response::start_tls()
                } else {
                    proof {
                        assert(forall|hr: ResponseModel|
                            #[trigger] spec_step(old(self)@, CmdModel::StartTls, hr)
                                == default_step(old(self)@, CmdModel::StartTls, hr));
                    }
                    self.cmd_default(handler, Cmd::StartTls)
                }
            },
            Cmd::Vrfy => {
                proof {
                    lemma_plus_empty(old(handler).events());
                    let st = spec_step(old(self)@, cmd@, empty_model());
                }
                Response::verify()
            },
            Cmd::Rset => {
                proof {
                    lemma_plus_empty(old(handler).events());
                    let st = spec_step(old(self)@, cmd@, empty_model());
                }
                self.do_rset(domain)
            },
            other => {
                proof {
                    assert(forall|hr: ResponseModel|
                        #[trigger] spec_step(old(self)@, other@, hr) == default_step(
                            old(self)@,
                            other@,
                            hr,
                        ));
                }
                self.cmd_default(handler, other)
            },
        }
    }

    fn cmd_hello_auth<H: Handler>(&mut self, handler: &mut H, cmd: Cmd) -> (res: Response)
        requires
            old(self)@.state is HelloAuth,
        ensures
            command_post(
                old(self)@,
                cmd@,
                res@,
                final(self)@,
                old(handler).events(),
                final(handler).events(),
            ),
    {
        let domain = match &self.smtp {
            SmtpState::HelloAuth { domain } => domain.clone(),
            _ => vstd::pervasive::unreached(),
        };
        match cmd {
            Cmd::StartTls => {
                self.smtp = SmtpState::Idle;
                proof {
                    lemma_plus_empty(old(handler).events());
                    let st = spec_step(old(self)@, cmd@, empty_model());
                }
                Response::start_tls()
            },
            Cmd::AuthPlain { authorization_id, authentication_id, password } => {
                if self.allow_auth_plain() {
                    let res = handler.auth_plain(
                        authorization_id.as_str(),
                        authentication_id.as_str(),
                        password.as_str(),
                    );
                    proof {
                        lemma_push_one(
                            old(handler).events(),
                            HandlerEvent::AuthPlain {
                                authorization_id: authorization_id@,
                                authentication_id: authentication_id@,
                                password: password@,
                                reply: res@,
                            },
                        );
                    }
                    self.auth_state = if res.code == 235 {
                        AuthState::Authenticated
                    } else {
                        AuthState::RequiresAuth
                    };
                    self.apply_gate(&res, SmtpState::Hello { domain });
                    proof {
                        let st = spec_step(old(self)@, cmd@, res@);
                    }
                    res
                } else {
                    proof {
                        lemma_plus_empty(old(handler).events());
                        let st = spec_step(old(self)@, cmd@, empty_model());
                    }
                    Response::bad_sequence()
                }
            },
            Cmd::AuthPlainEmpty => {
                proof {
                    lemma_plus_empty(old(handler).events());
                    let st = spec_step(old(self)@, cmd@, empty_model());
                }
                if self.allow_auth_plain() {
                    self.smtp = SmtpState::Auth {
                        domain,
                        mechanism: AuthMechanism::Plain,
                        username: None,
                    };
                    Response::empty_challenge()
                } else {
                    Response::bad_sequence()
                }
            },
            Cmd::AuthLogin { username } => {
                proof {
                    lemma_plus_empty(old(handler).events());
                    let st = spec_step(old(self)@, cmd@, empty_model());
                }
                if self.allow_auth_login() {
                    self.smtp = SmtpState::Auth {
                        domain,
                        mechanism: AuthMechanism::Login,
                        username: Some(username),
                    };
                    Response::password_challenge()
                } else {
                    Response::bad_sequence()
                }
            },
            Cmd::AuthLoginEmpty => {
                proof {
                    lemma_plus_empty(old(handler).events());
                    let st = spec_step(old(self)@, cmd@, empty_model());
                }
                if self.allow_auth_login() {
                    self.smtp = SmtpState::Auth {
                        domain,
                        mechanism: AuthMechanism::Login,
                        username: None,
                    };
                    Response::username_challenge()
                } else {
                    Response::bad_sequence()
                }
            },
            Cmd::Rset => {
                proof {
                    lemma_plus_empty(old(handler).events());
                    let st = spec_step(old(self)@, cmd@, empty_model());
                }
                self.do_rset(domain)
            },
            other => {
                proof {
                    assert(forall|hr: ResponseModel|
                        #[trigger] spec_step(old(self)@, other@, hr) == default_step(
                            old(self)@,
                            other@,
                            hr,
                        ));
                }
                self.cmd_default(handler, other)
            },
        }
    }

    fn cmd_auth<H: Handler>(&mut self, handler: &mut H, cmd: Cmd) -> (res: Response)
        requires
            old(self)@.state is Auth,
        ensures
            command_post(
                old(self)@,
                cmd@,
                res@,
                final(self)@,
                old(handler).events(),
                final(handler).events(),
            ),
    {
        let (domain, mechanism, username) = match &self.smtp {
            SmtpState::Auth { domain, mechanism, username } => (
                domain.clone(),
                *mechanism,
                match username {
                    Some(u) => Some(u.clone()),
                    None => None,
                },
            ),
            _ => vstd::pervasive::unreached(),
        };
        match cmd {
            Cmd::AuthResponse { response } => match mechanism {
                AuthMechanism::Plain => {
                    let creds = decode_sasl_plain(response.as_slice());
                    let res = handler.auth_plain(
                        creds.authorization_id.as_str(),
                        creds.authentication_id.as_str(),
                        creds.password.as_str(),
                    );
                    proof {
                        lemma_push_one(
                            old(handler).events(),
                            HandlerEvent::AuthPlain {
                                authorization_id: creds.authorization_id@,
                                authentication_id: creds.authentication_id@,
                                password: creds.password@,
                                reply: res@,
                            },
                        );
                    }
                    self.auth_state = if res.code == 235 {
                        AuthState::Authenticated
                    } else {
                        AuthState::RequiresAuth
                    };
                    self.smtp = if res.is_error {
                        SmtpState::HelloAuth { domain }
                    } else {
                        SmtpState::Hello { domain }
                    };
                    proof {
                        let st = spec_step(old(self)@, cmd@, res@);
                    }
                    res
                },
                AuthMechanism::Login => match username {
                    Some(user) => {
                        let password = decode_sasl_login(response.as_slice());
                        let res = handler.auth_login(user.as_str(), password.as_str());
                        proof {
                            lemma_push_one(
                                old(handler).events(),
                                HandlerEvent::AuthLogin {
                                    username: user@,
                                    password: password@,
                                    reply: res@,
                                },
                            );
                        }
                        self.auth_state = if res.code == 235 {
                            AuthState::Authenticated
                        } else {
                            AuthState::RequiresAuth
                        };
                        self.smtp = if res.is_error {
                            SmtpState::HelloAuth { domain }
                        } else {
                            SmtpState::Hello { domain }
                        };
                        proof {
                            let st = spec_step(old(self)@, cmd@, res@);
                        }
                        res
                    },
                    None => {
                        let user = decode_sasl_login(response.as_slice());
                        self.smtp = SmtpState::Auth {
                            domain,
                            mechanism: AuthMechanism::Login,
                            username: Some(user),
                        };
                        proof {
                            lemma_plus_empty(old(handler).events());
                            let st = spec_step(old(self)@, cmd@, empty_model());
                        }
                        Response::password_challenge()
                    },
                },
            },
            _ => {
                proof {
                    lemma_plus_empty(old(handler).events());
                    let st = spec_step(old(self)@, cmd@, empty_model());
                }
                Response::bad_sequence()
            },
        }
    }

    fn cmd_mail<H: Handler>(&mut self, handler: &mut H, cmd: Cmd) -> (res: Response)
        requires
            old(self)@.state is Mail,
        ensures
            command_post(
                old(self)@,
                cmd@,
                res@,
                final(self)@,
                old(handler).events(),
                final(handler).events(),
            ),
    {
        let (domain, reverse_path, is8bit) = match &self.smtp {
            SmtpState::Mail { domain, reverse_path, is8bit } => (
                domain.clone(),
                reverse_path.clone(),
                *is8bit,
            ),
            _ => vstd::pervasive::unreached(),
        };
        match cmd {
            Cmd::Rcpt { forward_path } => {
                let res = handler.rcpt(forward_path.as_str());
                proof {
                    lemma_push_one(
                        old(handler).events(),
                        HandlerEvent::RcptTo { forward_path: forward_path@, reply: res@ },
                    );
                }
                let mut fps: Vec<String> = Vec::new();
                fps.push(forward_path);
                proof {
                    assert(fps.deep_view() =~= seq![fps@[0]@]);
                }
                self.apply_gate(
                    &res,
                    SmtpState::Rcpt { domain, reverse_path, is8bit, forward_paths: fps },
                );
                proof {
                    let st = spec_step(old(self)@, cmd@, res@);
                }
                res
            },
            Cmd::Rset => {
                proof {
                    lemma_plus_empty(old(handler).events());
                    let st = spec_step(old(self)@, cmd@, empty_model());
                }
                self.do_rset(domain)
            },
            other => {
                proof {
                    assert(forall|hr: ResponseModel|
                        #[trigger] spec_step(old(self)@, other@, hr) == default_step(
                            old(self)@,
                            other@,
                            hr,
                        ));
                }
                self.cmd_default(handler, other)
            },
        }
    }

    fn cmd_rcpt<H: Handler>(&mut self, handler: &mut H, cmd: Cmd) -> (res: Response)
        requires
            old(self)@.state is Rcpt,
        ensures
            command_post(
                old(self)@,
                cmd@,
                res@,
                final(self)@,
                old(handler).events(),
                final(handler).events(),
            ),
    {
        let (domain, reverse_path, is8bit, forward_paths) = match &self.smtp {
            SmtpState::Rcpt { domain, reverse_path, is8bit, forward_paths } => (
                domain.clone(),
                reverse_path.clone(),
                *is8bit,
                clone_paths(forward_paths),
            ),
            _ => vstd::pervasive::unreached(),
        };
        match cmd {
            Cmd::Data => {
                let res = handler.data_start(
                    domain.as_str(),
                    reverse_path.as_str(),
                    is8bit,
                    &forward_paths,
                );
                proof {
                    lemma_push_one(
                        old(handler).events(),
                        HandlerEvent::DataStart {
                            domain: domain@,
                            reverse_path: reverse_path@,
                            is8bit,
                            forward_paths: forward_paths.deep_view(),
                            reply: res@,
                        },
                    );
                }
                let ghost hr = res@;
                let res = if res.is_error {
                    res
                } else {
                    Response::start_data()
                };
                self.apply_gate(&res, SmtpState::Data { domain });
                proof {
                    let st = spec_step(old(self)@, cmd@, hr);
                }
                res
            },
            Cmd::Rcpt { forward_path } => {
                let res = handler.rcpt(forward_path.as_str());
                proof {
                    lemma_push_one(
                        old(handler).events(),
                        HandlerEvent::RcptTo { forward_path: forward_path@, reply: res@ },
                    );
                }
                let mut fps = forward_paths;
                let ghost prev = fps.deep_view();
                fps.push(forward_path);
                proof {
                    assert(fps.deep_view() =~= prev.push(fps@[fps@.len() - 1]@));
                }
                self.apply_gate(
                    &res,
                    SmtpState::Rcpt { domain, reverse_path, is8bit, forward_paths: fps },
                );
                proof {
                    let st = spec_step(old(self)@, cmd@, res@);
                }
                res
            },
            Cmd::Rset => {
                proof {
                    lemma_plus_empty(old(handler).events());
                    let st = spec_step(old(self)@, cmd@, empty_model());
                }
                self.do_rset(domain)
            },
            other => {
                proof {
                    assert(forall|hr: ResponseModel|
                        #[trigger] spec_step(old(self)@, other@, hr) == default_step(
                            old(self)@,
                            other@,
                            hr,
                        ));
                }
                self.cmd_default(handler, other)
            },
        }
    }

    fn cmd_data<H: Handler>(&mut self, handler: &mut H, cmd: Cmd) -> (res: Response)
        requires
            old(self)@.state is Data,
        ensures
            command_post(
                old(self)@,
                cmd@,
                res@,
                final(self)@,
                old(handler).events(),
                final(handler).events(),
            ),
    {
        let domain = match &self.smtp {
            SmtpState::Data { domain } => domain.clone(),
            _ => vstd::pervasive::unreached(),
        };
        match cmd {
            Cmd::DataEnd => {
                let res = handler.data_end();
                proof {
                    lemma_push_one(old(handler).events(), HandlerEvent::DataEnd { reply: res@ });
                }
                self.apply_gate(&res, SmtpState::Hello { domain });
                proof {
                    let st = spec_step(old(self)@, cmd@, res@);
                }
                res
            },
            _ => {
                proof {
                    lemma_plus_empty(old(handler).events());
                    let st = spec_step(old(self)@, cmd@, empty_model());
                }
                Response::bad_sequence()
            },
        }
    }

    /// Apply one classified command: reply, and move to the next state
    /// as the transition table and the reply direct.
    pub fn command<H: Handler>(&mut self, handler: &mut H, cmd: Cmd) -> (res: Response)
        ensures
            command_post(
                old(self)@,
                cmd@,
                res@,
                final(self)@,
                old(handler).events(),
                final(handler).events(),
            ),
    {
        if matches!(self.smtp, SmtpState::Invalid) {
            proof {
                lemma_plus_empty(old(handler).events());
                let st = spec_step(old(self)@, cmd@, empty_model());
            }
            return Response::invalid_state();
        }
        if matches!(self.smtp, SmtpState::Idle) {
            return self.cmd_idle(handler, cmd);
        }
        if matches!(self.smtp, SmtpState::Hello { .. }) {
            return self.cmd_hello(handler, cmd);
        }
        if matches!(self.smtp, SmtpState::HelloAuth { .. }) {
            return self.cmd_hello_auth(handler, cmd);
        }
        if matches!(self.smtp, SmtpState::Auth { .. }) {
            return self.cmd_auth(handler, cmd);
        }
        if matches!(self.smtp, SmtpState::Mail { .. }) {
            return self.cmd_mail(handler, cmd);
        }
        if matches!(self.smtp, SmtpState::Rcpt { .. }) {
            return self.cmd_rcpt(handler, cmd);
        }
        self.cmd_data(handler, cmd)
    }

    /// Feed one raw input line: classify it under the current state's
    /// framing, or — inside DATA — hand the unstuffed chunk to the
    /// handler directly.
    pub fn process_line<H: Handler>(&mut self, handler: &mut H, line: &[u8]) -> (r: LineOutcome)
        ensures
            line_post(
                old(self)@,
                line@,
                r@,
                final(self)@,
                old(handler).events(),
                final(handler).events(),
            ),
    {
        if matches!(self.smtp, SmtpState::Invalid) {
            proof {
                lemma_plus_empty(old(handler).events());
                let st = line_step(old(self)@, line@, true);
            }
            return LineOutcome::Reply(Response::invalid_state());
        }
        if matches!(self.smtp, SmtpState::Auth { .. }) {
            let r = match parse_auth_response(line) {
                Ok(p) => LineOutcome::Command(Cmd::AuthResponse { response: p }),
                Err(e) => LineOutcome::Reply(e),
            };
            proof {
                lemma_plus_empty(old(handler).events());
                let st = line_step(old(self)@, line@, true);
            }
            return r;
        }
        if matches!(self.smtp, SmtpState::Data { .. }) {
            let domain = match &self.smtp {
                SmtpState::Data { domain } => domain.clone(),
                _ => vstd::pervasive::unreached(),
            };
            if line.len() == 3 && line[0] == 46 && line[1] == 13 && line[2] == 10 {
                proof {
                    assert(line@ =~= dot_crlf());
                    lemma_plus_empty(old(handler).events());
                    let st = line_step(old(self)@, line@, true);
                }
                return LineOutcome::Command(Cmd::DataEnd);
            }
            let stripped: &[u8];
            if line.len() > 0 && line[0] == 46 {
                stripped = vstd::slice::slice_subrange(line, 1, line.len());
                proof {
                    assert(stripped@ =~= line@.skip(1));
                }
            } else {
                stripped = line;
            }
            proof {
                assert(line@ != dot_crlf());
                assert(stripped@ == unstuff(line@));
            }
            match handler.data(stripped) {
                Ok(_) => {
                    proof {
                        lemma_push_one(
                            old(handler).events(),
                            HandlerEvent::DataChunk { bytes: unstuff(line@), accepted: true },
                        );
                        let st = line_step(old(self)@, line@, true);
                    }
                    LineOutcome::Reply(Response::empty())
                },
                Err(_) => {
                    self.smtp = SmtpState::Hello { domain };
                    proof {
                        lemma_push_one(
                            old(handler).events(),
                            HandlerEvent::DataChunk { bytes: unstuff(line@), accepted: false },
                        );
                        let st = line_step(old(self)@, line@, false);
                    }
                    LineOutcome::Reply(Response::transaction_failed())
                },
            }
        } else {
            let r = match parse(line) {
                Ok(c) => LineOutcome::Command(c),
                Err(e) => LineOutcome::Reply(e),
            };
            proof {
                lemma_plus_empty(old(handler).events());
                let st = line_step(old(self)@, line@, true);
            }
            r
        }
    }
}

/// Appending one element is the same as concatenating a singleton.
proof fn lemma_push_one(s: Seq<HandlerEvent>, e: HandlerEvent)
    ensures
        s.push(e) == s + seq![e],
{
    assert(s.push(e) =~= s + seq![e]);
}

/// Concatenating nothing changes nothing.
proof fn lemma_plus_empty(s: Seq<HandlerEvent>)
    ensures
        s + Seq::<HandlerEvent>::empty() == s,
{
    assert(s + Seq::<HandlerEvent>::empty() =~= s);
}

/// A copy of a list of paths with the same value.
fn clone_paths(v: &Vec<String>) -> (r: Vec<String>)
    ensures
        r.deep_view() == v.deep_view(),
{
    let n = v.len();
    let mut r: Vec<String> = Vec::new();
    let mut i: usize = 0;
    while i < n
        invariant
            i <= n,
            n == v@.len(),
            r@.len() == i,
            r.deep_view() =~= v.deep_view().take(i as int),
        decreases n - i,
    {
        let elem = v[i].clone();
        r.push(elem);
        proof {
            assert(r@.len() == i + 1);
            assert(r@[i as int] == v@[i as int]);
            assert(r@[i as int]@ == v@[i as int]@);
            assert(r.deep_view() =~~= v.deep_view().take(i + 1 as int));
        }
        i = i + 1;
    }
    proof {
        assert(v.deep_view().take(n as int) =~= v.deep_view());
    }
    r
}

} // verus!
