//! The engine's governing laws, proved once and for all over the
//! transition table [`spec_step`] and the line framing [`line_step`]
//! that the contracts of `StateMachine::command` and
//! `StateMachine::process_line` are stated with.

use crate::fsm::{auth_line, auth_login_allowed, dot_crlf, ehlo_lines, ehlo_reply, init_model,
    line_step, rset_state, spec_step, unstuff, AuthState, LineModel, MachineModel, StateModel,
    TlsState};
use crate::response::{empty_model, ok_model, password_challenge_model,
    username_challenge_model, Action, ResponseModel};
use crate::sasl::sasl_login_model;
use crate::smtp::{AuthMechanism, CmdModel, HandlerEvent, IpAddress};
use vstd::prelude::*;

verus! {

/// The session invariants: a mail transaction (and a plain `Hello`)
/// exists only where authentication is not outstanding, and a `Rcpt`
/// state holds at least one forward path.
pub open spec fn machine_inv(m: MachineModel) -> bool {
    &&& ((m.state is Hello || m.state is Mail || m.state is Rcpt || m.state is Data) ==> m.auth
        != AuthState::RequiresAuth)
    &&& (m.state matches StateModel::Rcpt { forward_paths, .. } ==> forward_paths.len() > 0)
}

/// A handler authenticates with code 235 exactly when it does not
/// flag an error; assumed of the reply on the two authenticating
/// commands.
pub open spec fn auth_reply_coherent(pre: MachineModel, cmd: CmdModel, res: ResponseModel) -> bool {
    (((pre.state is HelloAuth) && (cmd is AuthPlain)) || ((pre.state is Auth) && (cmd
        is AuthResponse))) ==> (res.code == 235 <==> !res.is_error)
}

/// A fresh machine satisfies the invariants.
pub proof fn lemma_inv_init(
    ip: IpAddress,
    mechanisms: Seq<AuthMechanism>,
    allow_start_tls: bool,
    allow_plaintext: bool,
)
    ensures
        machine_inv(init_model(ip, mechanisms, allow_start_tls, allow_plaintext)),
{
}

/// Every step preserves the invariants, whatever reply came back —
/// provided the handler's authentication replies are coherent.
pub proof fn lemma_inv_step(pre: MachineModel, cmd: CmdModel, res: ResponseModel)
    requires
        machine_inv(pre),
        auth_reply_coherent(pre, cmd, res),
    ensures
        machine_inv(spec_step(pre, cmd, res).post),
{
}

/// A returned error reply never advances the protocol state wherever
/// the reply came from the handler (the row is not pinned), except in
/// the AUTH exchange, whose failure transition the table prescribes
/// explicitly.
pub proof fn lemma_error_reply_preserves_state(pre: MachineModel, cmd: CmdModel, hr: ResponseModel)
    requires
        !spec_step(pre, cmd, hr).pinned,
        spec_step(pre, cmd, hr).reply.is_error,
        spec_step(pre, cmd, hr).reply.action != Action::Close,
        !((pre.state is Auth) && (cmd is AuthResponse)),
    ensures
        spec_step(pre, cmd, hr).post.state == pre.state,
{
}

/// Which non-error reply came back never changes where a command
/// goes: the successful transition is a function of the prior state
/// and the command alone, as the table prescribes.
pub proof fn lemma_success_transition_reply_independent(
    pre: MachineModel,
    cmd: CmdModel,
    r1: ResponseModel,
    r2: ResponseModel,
)
    requires
        !r1.is_error,
        r1.action != Action::Close,
        !r2.is_error,
        r2.action != Action::Close,
    ensures
        spec_step(pre, cmd, r1).post.state == spec_step(pre, cmd, r2).post.state,
{
}

/// A returned `Close` reply terminates the session wherever the
/// reply came from the handler, except in the AUTH exchange.
pub proof fn lemma_close_reply_terminates(pre: MachineModel, cmd: CmdModel, hr: ResponseModel)
    requires
        !spec_step(pre, cmd, hr).pinned,
        spec_step(pre, cmd, hr).reply.action == Action::Close,
        !((pre.state is Auth) && (cmd is AuthResponse)),
    ensures
        spec_step(pre, cmd, hr).post.state is Invalid,
{
}

/// The AUTH extension line is the word AUTH followed by one space and
/// one mechanism word per configured mechanism, in construction
/// order.
pub proof fn lemma_auth_line_form(mechs: Seq<AuthMechanism>)
    ensures
        auth_line(mechs).len() >= 4,
        auth_line(mechs)[0] == 'A',
        auth_line(mechs).take(4) == "AUTH"@,
        mechs.len() == 0 ==> auth_line(mechs) == "AUTH"@,
        mechs.len() > 0 ==> auth_line(mechs) == auth_line(mechs.drop_last()) + " "@
            + mechs.last().extension_word(),
    decreases mechs.len(),
{
    reveal_strlit("AUTH");
    if mechs.len() == 0 {
        assert(auth_line(mechs).take(4) =~= "AUTH"@);
    } else {
        lemma_auth_line_form(mechs.drop_last());
        assert(auth_line(mechs).take(4) =~= auth_line(mechs.drop_last()).take(4));
    }
}

/// The EHLO reply lists `8BITMIME` always, `STARTTLS` exactly when
/// TLS is configured and not yet active, and the AUTH line exactly
/// when authentication may be offered and mechanisms exist.
pub proof fn lemma_ehlo_lists(m: MachineModel)
    ensures
        ehlo_reply(m).lines == ehlo_lines(m),
        ehlo_reply(m).code == 250 && !ehlo_reply(m).is_error,
        ehlo_lines(m).contains("8BITMIME"@),
        ehlo_lines(m).contains("STARTTLS"@) <==> m.tls == TlsState::Inactive,
        ehlo_lines(m).contains(auth_line(m.mechanisms)) <==> (crate::fsm::auth_allowed(m)
            && m.mechanisms.len() > 0),
{
    reveal_strlit("8BITMIME");
    reveal_strlit("STARTTLS");
    lemma_auth_line_form(m.mechanisms);
    let lines = ehlo_lines(m);
    assert(lines[0] == "8BITMIME"@);
    assert(lines.contains("8BITMIME"@));
    assert("8BITMIME"@[0] == '8');
    assert("STARTTLS"@[0] == 'S');
    if m.tls == TlsState::Inactive {
        assert(lines[1] == "STARTTLS"@);
        assert(lines.contains("STARTTLS"@));
    } else {
        assert forall|k: int| 0 <= k < lines.len() implies lines[k] != "STARTTLS"@ by {
            assert(lines[k][0] != 'S');
        }
        if lines.contains("STARTTLS"@) {
            let k = choose|k: int| 0 <= k < lines.len() && lines[k] == "STARTTLS"@;
            assert(false);
        }
    }
    if crate::fsm::auth_allowed(m) && m.mechanisms.len() > 0 {
        assert(lines.last() == auth_line(m.mechanisms));
        assert(lines.contains(auth_line(m.mechanisms)));
    } else {
        assert forall|k: int| 0 <= k < lines.len() implies lines[k] != auth_line(
            m.mechanisms,
        ) by {
            assert(lines[k][0] != 'A');
        }
        if lines.contains(auth_line(m.mechanisms)) {
            let k = choose|k: int|
                0 <= k < lines.len() && lines[k] == auth_line(m.mechanisms);
            assert(false);
        }
    }
}

/// While authentication is outstanding, MAIL FROM is refused with a
/// 503 error and the state does not move: the invariants place the
/// session outside `Hello`, so the command has no transition to fire.
pub proof fn lemma_requires_auth_blocks_mail(pre: MachineModel, cmd: CmdModel, res: ResponseModel)
    requires
        machine_inv(pre),
        pre.auth == AuthState::RequiresAuth,
        cmd is Mail,
    ensures
        spec_step(pre, cmd, res).post.state == pre.state,
        spec_step(pre, cmd, res).reply.code == 503 && spec_step(pre, cmd, res).reply.is_error,
        spec_step(pre, cmd, res).pinned,
{
}

/// RSET replies OK, keeps the domain of the current state, and
/// returns to `Hello` or `HelloAuth` according to the authentication
/// configuration.
pub proof fn lemma_rset_preserves_domain(pre: MachineModel, res: ResponseModel, domain: Seq<char>)
    requires
        pre.state == (StateModel::Hello { domain }) || pre.state == (StateModel::HelloAuth {
            domain,
        }) || (pre.state matches StateModel::Mail { domain: d, .. } && d == domain) || (pre.state
            matches StateModel::Rcpt { domain: d, .. } && d == domain),
    ensures
        spec_step(pre, CmdModel::Rset, res).reply == ok_model(),
        spec_step(pre, CmdModel::Rset, res).post.state == rset_state(pre, domain),
        pre.auth == AuthState::Unavailable ==> spec_step(pre, CmdModel::Rset, res).post.state
            == (StateModel::Hello { domain }),
        pre.auth != AuthState::Unavailable ==> spec_step(pre, CmdModel::Rset, res).post.state
            == (StateModel::HelloAuth { domain }),
{
}

/// AUTH LOGIN without an initial response is a three-reply exchange:
/// 334 asking the username, 334 asking the password, then the
/// handler's reply; with an initial response the username turn is
/// skipped. The decoded credentials reach the handler in one
/// `auth_login` call.
pub proof fn lemma_auth_login_exchange(
    m0: MachineModel,
    domain: Seq<char>,
    b1: Seq<u8>,
    b2: Seq<u8>,
    r1: ResponseModel,
    r2: ResponseModel,
    r3: ResponseModel,
)
    requires
        m0.state == (StateModel::HelloAuth { domain }),
        auth_login_allowed(m0),
    ensures
        ({
            let s1 = spec_step(m0, CmdModel::AuthLoginEmpty, r1);
            let s2 = spec_step(s1.post, CmdModel::AuthResponse { response: b1 }, r2);
            let s3 = spec_step(s2.post, CmdModel::AuthResponse { response: b2 }, r3);
            &&& s1.reply == username_challenge_model()
            &&& s1.post.state == (StateModel::Auth {
                domain,
                mechanism: AuthMechanism::Login,
                username: None,
            })
            &&& s2.reply == password_challenge_model()
            &&& s2.post.state == (StateModel::Auth {
                domain,
                mechanism: AuthMechanism::Login,
                username: Some(sasl_login_model(b1)),
            })
            &&& s3.reply == r3
            &&& (r3.code == 235 <==> s3.post.auth == AuthState::Authenticated)
            &&& s3.events == seq![
                HandlerEvent::AuthLogin {
                    username: sasl_login_model(b1),
                    password: sasl_login_model(b2),
                    reply: r3,
                },
            ]
            &&& s3.post.state == if r3.is_error {
                StateModel::HelloAuth { domain }
            } else {
                StateModel::Hello { domain }
            }
        }),
        ({
            let u = sasl_login_model(b1);
            let t1 = spec_step(m0, CmdModel::AuthLogin { username: u }, r1);
            let t2 = spec_step(t1.post, CmdModel::AuthResponse { response: b2 }, r2);
            &&& t1.reply == password_challenge_model()
            &&& t1.post.state == (StateModel::Auth {
                domain,
                mechanism: AuthMechanism::Login,
                username: Some(u),
            })
            &&& t2.reply == r2
            &&& t2.post.state == if r2.is_error {
                StateModel::HelloAuth { domain }
            } else {
                StateModel::Hello { domain }
            }
        }),
{
}

/// Inside DATA, only the bare dot line ends the body; any other line
/// is handed to the handler exactly once, with at most one leading
/// dot stripped, and draws no reply of its own.
pub proof fn lemma_data_framing(pre: MachineModel, line: Seq<u8>, data_ok: bool)
    requires
        pre.state is Data,
    ensures
        line == dot_crlf() ==> line_step(pre, line, data_ok) == (crate::fsm::LineStep {
            outcome: LineModel::Command(CmdModel::DataEnd),
            post: pre,
            events: Seq::empty(),
        }),
        line != dot_crlf() ==> line_step(pre, line, data_ok).events == seq![
            HandlerEvent::DataChunk { bytes: unstuff(line), accepted: data_ok },
        ],
        line != dot_crlf() && data_ok ==> line_step(pre, line, data_ok).post == pre && line_step(
            pre,
            line,
            data_ok,
        ).outcome == LineModel::Reply(empty_model()),
        unstuff(line) == line || (line.len() > 0 && line[0] == 46 && unstuff(line) == line.skip(
            1,
        )),
{
}

/// The handler calls of one body line each, in order.
pub open spec fn chunk_events(lines: Seq<Seq<u8>>) -> Seq<HandlerEvent>
    decreases lines.len(),
{
    if lines.len() == 0 {
        Seq::empty()
    } else {
        seq![HandlerEvent::DataChunk { bytes: unstuff(lines[0]), accepted: true }] + chunk_events(
            lines.skip(1),
        )
    }
}

/// The handler calls made by feeding the lines one after another,
/// each accepted.
pub open spec fn data_session_events(pre: MachineModel, lines: Seq<Seq<u8>>) -> Seq<HandlerEvent>
    decreases lines.len(),
{
    if lines.len() == 0 {
        Seq::empty()
    } else {
        let st = line_step(pre, lines[0], true);
        st.events + data_session_events(st.post, lines.skip(1))
    }
}

/// Round trip of a body of N lines: fed to the DATA framing and all
/// accepted, they produce exactly N `data` calls with dot-stuffing
/// reversed, in order; the machine does not move; the terminating dot
/// line then yields `DataEnd`, whose step is exactly one `data_end`
/// call.
pub proof fn lemma_data_round_trip(pre: MachineModel, lines: Seq<Seq<u8>>, res: ResponseModel)
    requires
        pre.state is Data,
        forall|i: int| 0 <= i < lines.len() ==> lines[i] != dot_crlf(),
    ensures
        data_session_events(pre, lines) == chunk_events(lines),
        line_step(pre, dot_crlf(), true).outcome == LineModel::Command(CmdModel::DataEnd),
        spec_step(pre, CmdModel::DataEnd, res).events == seq![
            HandlerEvent::DataEnd { reply: res },
        ],
    decreases lines.len(),
{
    if lines.len() > 0 {
        let st = line_step(pre, lines[0], true);
        assert(st.post == pre);
        assert(forall|i: int|
            0 <= i < lines.skip(1).len() ==> lines.skip(1)[i] == lines[i + 1]);
        lemma_data_round_trip(pre, lines.skip(1), res);
    }
}

} // verus!
