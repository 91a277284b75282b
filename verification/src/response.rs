//! The SMTP reply model: a value type carrying the numeric reply code,
//! the message, extra continuation lines, an error flag and an advisory
//! action for the transport, together with the catalog of fixed replies
//! that the state machine emits itself.

use vstd::prelude::*;

verus! {

/// What the transport should do after writing the reply.
#[derive(Clone, Copy, PartialEq, Eq, Structural, Debug)]
pub enum Action {
    /// Keep the session open and wait for the next line.
    Continue,
    /// Close the connection.
    Close,
    /// Perform the TLS handshake, then inject `Cmd::StartedTls`.
    UpgradeTls,
    /// Write nothing: the line was consumed (DATA payload).
    NoReply,
}

/// An SMTP reply. Multi-line replies (EHLO) carry each extension in
/// its own entry of `lines`.
#[derive(Debug)]
pub struct Response {
    pub code: u16,
    pub message: String,
    pub lines: Vec<String>,
    pub is_error: bool,
    pub action: Action,
}

/// The mathematical value of a [`Response`].
pub ghost struct ResponseModel {
    pub code: u16,
    pub message: Seq<char>,
    pub lines: Seq<Seq<char>>,
    pub is_error: bool,
    pub action: Action,
}

impl View for Response {
    type V = ResponseModel;

    open spec fn view(&self) -> ResponseModel {
        ResponseModel {
            code: self.code,
            message: self.message@,
            lines: self.lines.deep_view(),
            is_error: self.is_error,
            action: self.action,
        }
    }
}

/// A single-line reply with no continuation lines and `Continue` action.
pub open spec fn fixed_model(code: u16, message: Seq<char>, is_error: bool) -> ResponseModel {
    ResponseModel { code, message, lines: Seq::empty(), is_error, action: Action::Continue }
}

/// The synthetic empty reply: the input line was consumed and no reply
/// is owed (DATA payload lines).
pub open spec fn empty_model() -> ResponseModel {
    ResponseModel {
        code: 0,
        message: Seq::empty(),
        lines: Seq::empty(),
        is_error: false,
        action: Action::NoReply,
    }
}

/// `250 OK`.
pub open spec fn ok_model() -> ResponseModel {
    fixed_model(250, "OK"@, false)
}

/// `221 goodbye`, closing the connection.
pub open spec fn goodbye_model() -> ResponseModel {
    ResponseModel {
        code: 221,
        message: "goodbye"@,
        lines: Seq::empty(),
        is_error: false,
        action: Action::Close,
    }
}

/// `503` after the session was terminated.
pub open spec fn invalid_state_model() -> ResponseModel {
    fixed_model(503, "bad state"@, true)
}

/// `503` for a command that is illegal in the current state.
pub open spec fn bad_sequence_model() -> ResponseModel {
    fixed_model(503, "bad sequence of commands"@, true)
}

/// `550` for HELO when policy requires EHLO.
pub open spec fn bad_hello_model() -> ResponseModel {
    fixed_model(550, "bad HELO"@, true)
}

/// `220 Ready to start TLS`, asking the transport to upgrade.
pub open spec fn start_tls_model() -> ResponseModel {
    ResponseModel {
        code: 220,
        message: "Ready to start TLS"@,
        lines: Seq::empty(),
        is_error: false,
        action: Action::UpgradeTls,
    }
}

/// `252` placeholder reply to VRFY.
pub open spec fn verify_model() -> ResponseModel {
    fixed_model(252, "Cannot VRFY user, but will accept message"@, false)
}

/// `354 Start mail input`.
pub open spec fn start_data_model() -> ResponseModel {
    fixed_model(354, "Start mail input; end with <CRLF>.<CRLF>"@, false)
}

/// `554 Transaction failed`.
pub open spec fn transaction_failed_model() -> ResponseModel {
    fixed_model(554, "Transaction failed"@, true)
}

/// `334` challenge with an empty prompt (AUTH PLAIN without initial
/// response).
pub open spec fn empty_challenge_model() -> ResponseModel {
    fixed_model(334, ""@, false)
}

/// `334 VXNlcm5hbWU6` (base64 of `Username:`).
pub open spec fn username_challenge_model() -> ResponseModel {
    fixed_model(334, "VXNlcm5hbWU6"@, false)
}

/// `334 UGFzc3dvcmQ6` (base64 of `Password:`).
pub open spec fn password_challenge_model() -> ResponseModel {
    fixed_model(334, "UGFzc3dvcmQ6"@, false)
}

/// `500` for a line that is not a recognisable command.
pub open spec fn syntax_error_model() -> ResponseModel {
    fixed_model(500, "unrecognised command"@, true)
}

/// `501` for a recognised verb with a malformed argument.
pub open spec fn invalid_parameter_model() -> ResponseModel {
    fixed_model(501, "invalid argument"@, true)
}

/// The model of a reply built by [`Response::custom`].
pub open spec fn custom_model(code: u16, message: Seq<char>) -> ResponseModel {
    fixed_model(code, message, !(200 <= code < 400))
}

/// An empty continuation-line list, seen as an empty sequence.
fn no_lines() -> (v: Vec<String>)
    ensures
        v.deep_view() == Seq::<Seq<char>>::empty(),
{
    let v: Vec<String> = Vec::new();
    proof {
        assert(v.deep_view() =~= Seq::<Seq<char>>::empty());
    }
    v
}

impl Response {
    /// A single-line reply; the error flag follows the code class.
    pub fn custom(code: u16, message: String) -> (r: Response)
        ensures
            r@ == custom_model(code, message@),
    {
        let is_error = !(200 <= code && code < 400);
        Response { code, message, lines: no_lines(), is_error, action: Action::Continue }
    }

    fn fixed(code: u16, message: &str, is_error: bool) -> (r: Response)
        ensures
            r@ == fixed_model(code, message@, is_error),
    {
        Response {
            code,
            message: String::from_str(message),
            lines: no_lines(),
            is_error,
            action: Action::Continue,
        }
    }

    /// The synthetic empty reply (nothing is written to the client).
    pub fn empty() -> (r: Response)
        ensures
            r@ == empty_model(),
    {
        Response {
            code: 0,
            message: String::new(),
            lines: no_lines(),
            is_error: false,
            action: Action::NoReply,
        }
    }

    pub fn ok() -> (r: Response)
        ensures
            r@ == ok_model(),
    {
        Self::fixed(250, "OK", false)
    }

    pub fn goodbye() -> (r: Response)
        ensures
            r@ == goodbye_model(),
    {
        Response {
            code: 221,
            message: String::from_str("goodbye"),
            lines: no_lines(),
            is_error: false,
            action: Action::Close,
        }
    }

    pub fn invalid_state() -> (r: Response)
        ensures
            r@ == invalid_state_model(),
    {
        Self::fixed(503, "bad state", true)
    }

    pub fn bad_sequence() -> (r: Response)
        ensures
            r@ == bad_sequence_model(),
    {
        Self::fixed(503, "bad sequence of commands", true)
    }

    pub fn bad_hello() -> (r: Response)
        ensures
            r@ == bad_hello_model(),
    {
        Self::fixed(550, "bad HELO", true)
    }

    pub fn start_tls() -> (r: Response)
        ensures
            r@ == start_tls_model(),
    {
        Response {
            code: 220,
            message: String::from_str("Ready to start TLS"),
            lines: no_lines(),
            is_error: false,
            action: Action::UpgradeTls,
        }
    }

    pub fn verify() -> (r: Response)
        ensures
            r@ == verify_model(),
    {
        Self::fixed(252, "Cannot VRFY user, but will accept message", false)
    }

    pub fn start_data() -> (r: Response)
        ensures
            r@ == start_data_model(),
    {
        Self::fixed(354, "Start mail input; end with <CRLF>.<CRLF>", false)
    }

    pub fn transaction_failed() -> (r: Response)
        ensures
            r@ == transaction_failed_model(),
    {
        Self::fixed(554, "Transaction failed", true)
    }

    pub fn empty_challenge() -> (r: Response)
        ensures
            r@ == empty_challenge_model(),
    {
        Self::fixed(334, "", false)
    }

    pub fn username_challenge() -> (r: Response)
        ensures
            r@ == username_challenge_model(),
    {
        Self::fixed(334, "VXNlcm5hbWU6", false)
    }

    pub fn password_challenge() -> (r: Response)
        ensures
            r@ == password_challenge_model(),
    {
        Self::fixed(334, "UGFzc3dvcmQ6", false)
    }

    pub fn syntax_error() -> (r: Response)
        ensures
            r@ == syntax_error_model(),
    {
        Self::fixed(500, "unrecognised command", true)
    }

    pub fn invalid_parameter() -> (r: Response)
        ensures
            r@ == invalid_parameter_model(),
    {
        Self::fixed(501, "invalid argument", true)
    }

    /// A multi-line reply: `message` on the first line, then each entry
    /// of `lines` as a continuation line (used for EHLO).
    pub fn dynamic(code: u16, message: String, lines: Vec<String>) -> (r: Response)
        ensures
            r@ == (ResponseModel {
                code,
                message: message@,
                lines: lines.deep_view(),
                is_error: false,
                action: Action::Continue,
            }),
    {
        Response { code, message, lines, is_error: false, action: Action::Continue }
    }
}

} // verus!
