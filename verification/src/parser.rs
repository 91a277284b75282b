//! The command-line parser: classifies one CRLF-terminated line into a
//! [`Cmd`] or a syntax-error [`Response`]. Verbs are matched without
//! regard to case; `MAIL FROM` recognises the `BODY=8BITMIME`
//! parameter; `AUTH` recognises `PLAIN` and `LOGIN` with an optional
//! base64 initial response. A separate entry point wraps the raw
//! line of a pending AUTH exchange as a payload.

use crate::response::{invalid_parameter_model, syntax_error_model, Response, ResponseModel};
use crate::sasl::{ascii_chars, decode_sasl_plain, decode_sasl_login, lemma_ascii_utf8,
    sasl_login_model, sasl_plain_model};
use crate::smtp::{Cmd, CmdModel};
use vstd::prelude::*;
use vstd::slice::{slice_subrange, slice_to_vec};

verus! {

/// Carriage return.
pub open spec fn cr() -> u8 {
    13
}

/// Line feed.
pub open spec fn lf() -> u8 {
    10
}

/// The uppercase form of an ASCII byte.
pub open spec fn upper(b: u8) -> u8 {
    if 97 <= b <= 122 {
        (b - 32) as u8
    } else {
        b
    }
}

/// The bytewise uppercase form of a byte sequence.
pub open spec fn upper_seq(s: Seq<u8>) -> Seq<u8> {
    s.map_values(|b: u8| upper(b))
}

/// A visible ASCII byte (no space, no control characters).
pub open spec fn is_visible(b: u8) -> bool {
    33 <= b <= 126
}

pub open spec fn all_visible(s: Seq<u8>) -> bool {
    forall|i: int| 0 <= i < s.len() ==> is_visible(s[i])
}

/// Visible ASCII or space: the characters a parameter tail may hold.
pub open spec fn all_visible_or_space(s: Seq<u8>) -> bool {
    forall|i: int| 0 <= i < s.len() ==> (is_visible(s[i]) || s[i] == 32)
}

/// The byte values of an ASCII string.
pub open spec fn lit_b(s: Seq<char>) -> Seq<u8> {
    Seq::new(s.len(), |i: int| s[i] as u8)
}

/// Whether the line ends in CRLF.
pub open spec fn crlf_ok(l: Seq<u8>) -> bool {
    l.len() >= 2 && l[l.len() - 2] == cr() && l[l.len() - 1] == lf()
}

/// The classification of one command line (CRLF included).
pub open spec fn parse_spec(l: Seq<u8>) -> Result<CmdModel, ResponseModel> {
    if !crlf_ok(l) {
        Err(syntax_error_model())
    } else {
        parse_body_spec(l.take(l.len() - 2))
    }
}

/// The classification of a command line with the CRLF stripped.
pub open spec fn parse_body_spec(b: Seq<u8>) -> Result<CmdModel, ResponseModel> {
    let up = upper_seq(b);
    if up == lit_b("DATA"@) {
        Ok(CmdModel::Data)
    } else if up == lit_b("RSET"@) {
        Ok(CmdModel::Rset)
    } else if up == lit_b("QUIT"@) {
        Ok(CmdModel::Quit)
    } else if up == lit_b("NOOP"@) {
        Ok(CmdModel::Noop)
    } else if up == lit_b("STARTTLS"@) {
        Ok(CmdModel::StartTls)
    } else if up == lit_b("VRFY"@) || (up.len() >= 5 && up.take(5) == lit_b("VRFY "@)) {
        Ok(CmdModel::Vrfy)
    } else if up.len() >= 5 && up.take(5) == lit_b("HELO "@) {
        domain_spec(b.skip(5), true)
    } else if up.len() >= 5 && up.take(5) == lit_b("EHLO "@) {
        domain_spec(b.skip(5), false)
    } else if up.len() >= 10 && up.take(10) == lit_b("MAIL FROM:"@) {
        mail_spec(b.skip(10))
    } else if up.len() >= 8 && up.take(8) == lit_b("RCPT TO:"@) {
        rcpt_spec(b.skip(8))
    } else if up.len() >= 5 && up.take(5) == lit_b("AUTH "@) {
        auth_spec(b.skip(5))
    } else {
        Err(syntax_error_model())
    }
}

/// A HELO/EHLO argument: one non-empty word of visible characters.
pub open spec fn domain_spec(rest: Seq<u8>, is_helo: bool) -> Result<CmdModel, ResponseModel> {
    if rest.len() == 0 || !all_visible(rest) {
        Err(invalid_parameter_model())
    } else if is_helo {
        Ok(CmdModel::Helo { domain: ascii_chars(rest) })
    } else {
        Ok(CmdModel::Ehlo { domain: ascii_chars(rest) })
    }
}

/// The index of the first occurrence of `t`, or -1 when absent.
pub open spec fn find_byte(s: Seq<u8>, t: u8) -> int
    decreases s.len(),
{
    if s.len() == 0 {
        -1
    } else if s[0] == t {
        0
    } else {
        let r = find_byte(s.skip(1), t);
        if r < 0 {
            -1
        } else {
            r + 1
        }
    }
}

pub proof fn lemma_find_byte(s: Seq<u8>, t: u8)
    ensures
        find_byte(s, t) == -1 ==> forall|k: int| 0 <= k < s.len() ==> s[k] != t,
        find_byte(s, t) >= 0 ==> {
            &&& find_byte(s, t) < s.len()
            &&& s[find_byte(s, t)] == t
            &&& forall|k: int| 0 <= k < find_byte(s, t) ==> s[k] != t
        },
    decreases s.len(),
{
    if s.len() > 0 && s[0] != t {
        lemma_find_byte(s.skip(1), t);
        assert forall|k: int| 0 <= k < s.len() && find_byte(s, t) == -1 implies s[k] != t by {
            if k > 0 {
                assert(s.skip(1)[k - 1] == s[k]);
            }
        }
        if find_byte(s, t) >= 0 {
            assert(s.skip(1)[find_byte(s, t) - 1] == s[find_byte(s, t)]);
            assert forall|k: int| 0 <= k < find_byte(s, t) implies s[k] != t by {
                if k > 0 {
                    assert(s.skip(1)[k - 1] == s[k]);
                }
            }
        }
    }
}

/// The `MAIL FROM:` argument: `<path>`, then optional parameters. Only
/// `BODY=8BITMIME` is understood; other parameters are ignored.
pub open spec fn mail_spec(rest: Seq<u8>) -> Result<CmdModel, ResponseModel> {
    let close = find_byte(rest, 62);
    if rest.len() == 0 || rest[0] != 60 || close < 0 {
        Err(invalid_parameter_model())
    } else {
        let path = rest.subrange(1, close);
        let params = rest.skip(close + 1);
        if !all_visible(path) {
            Err(invalid_parameter_model())
        } else if params.len() == 0 {
            Ok(CmdModel::Mail { reverse_path: ascii_chars(path), is8bit: false })
        } else if upper_seq(params) == lit_b(" BODY=8BITMIME"@) {
            Ok(CmdModel::Mail { reverse_path: ascii_chars(path), is8bit: true })
        } else if params[0] == 32 && all_visible_or_space(params) {
            Ok(CmdModel::Mail { reverse_path: ascii_chars(path), is8bit: false })
        } else {
            Err(invalid_parameter_model())
        }
    }
}

/// The `RCPT TO:` argument: `<path>`, then optional (ignored)
/// parameters.
pub open spec fn rcpt_spec(rest: Seq<u8>) -> Result<CmdModel, ResponseModel> {
    let close = find_byte(rest, 62);
    if rest.len() == 0 || rest[0] != 60 || close < 0 {
        Err(invalid_parameter_model())
    } else {
        let path = rest.subrange(1, close);
        let params = rest.skip(close + 1);
        if !all_visible(path) {
            Err(invalid_parameter_model())
        } else if params.len() == 0 || (params[0] == 32 && all_visible_or_space(params)) {
            Ok(CmdModel::Rcpt { forward_path: ascii_chars(path) })
        } else {
            Err(invalid_parameter_model())
        }
    }
}

/// The `AUTH` argument: `PLAIN` or `LOGIN`, optionally followed by a
/// base64 initial response.
pub open spec fn auth_spec(rest: Seq<u8>) -> Result<CmdModel, ResponseModel> {
    let up = upper_seq(rest);
    if up == lit_b("PLAIN"@) {
        Ok(CmdModel::AuthPlainEmpty)
    } else if up == lit_b("LOGIN"@) {
        Ok(CmdModel::AuthLoginEmpty)
    } else if up.len() >= 6 && up.take(6) == lit_b("PLAIN "@) {
        let creds = sasl_plain_model(rest.skip(6));
        Ok(CmdModel::AuthPlain {
            authorization_id: creds.0,
            authentication_id: creds.1,
            password: creds.2,
        })
    } else if up.len() >= 6 && up.take(6) == lit_b("LOGIN "@) {
        Ok(CmdModel::AuthLogin { username: sasl_login_model(rest.skip(6)) })
    } else {
        Err(invalid_parameter_model())
    }
}

/// The classification of a line inside a pending AUTH exchange: no
/// SMTP verb is expected, so the whole line (CRLF stripped) is the
/// payload. Payloads that are not base64 fail later, in the SASL
/// decoders, which turn them into empty credentials.
pub open spec fn auth_response_spec(l: Seq<u8>) -> Result<Seq<u8>, ResponseModel> {
    if !crlf_ok(l) {
        Err(syntax_error_model())
    } else {
        Ok(l.take(l.len() - 2))
    }
}

/// The uppercase form of an ASCII byte.
fn upper_byte(b: u8) -> (r: u8)
    ensures
        r == upper(b),
{
    if 97 <= b && b <= 122 {
        b - 32
    } else {
        b
    }
}

/// The bytes of an ASCII string literal.
fn lit_bytes(s: &str) -> (v: Vec<u8>)
    requires
        vstd::string::is_ascii(s),
    ensures
        v@ == lit_b(s@),
{
    broadcast use vstd::string::is_ascii_spec_bytes;

    let v = s.as_bytes_vec();
    proof {
        assert(v@ =~= lit_b(s@));
    }
    v
}

/// Whether the uppercase form of `b` equals `lit` exactly.
fn upper_eq(b: &[u8], lit: &Vec<u8>) -> (r: bool)
    ensures
        r == (upper_seq(b@) == lit@),
{
    let n = b.len();
    if n != lit.len() {
        proof {
            assert(upper_seq(b@).len() == b@.len());
        }
        return false;
    }
    let mut i: usize = 0;
    while i < n
        invariant
            i <= n,
            n == b@.len() == lit@.len(),
            forall|k: int| 0 <= k < i ==> upper(b@[k]) == lit@[k],
        decreases n - i,
    {
        if upper_byte(b[i]) != lit[i] {
            proof {
                assert(upper_seq(b@)[i as int] == upper(b@[i as int]));
            }
            return false;
        }
        i = i + 1;
    }
    proof {
        assert(upper_seq(b@) =~= lit@);
    }
    true
}

/// Whether the uppercase form of `b` starts with `lit`.
fn upper_prefix(b: &[u8], lit: &Vec<u8>) -> (r: bool)
    ensures
        r == (upper_seq(b@).len() >= lit@.len() && upper_seq(b@).take(lit@.len() as int) == lit@),
{
    let n = lit.len();
    if b.len() < n {
        proof {
            assert(upper_seq(b@).len() == b@.len());
        }
        return false;
    }
    let mut i: usize = 0;
    while i < n
        invariant
            i <= n,
            n == lit@.len() <= b@.len(),
            forall|k: int| 0 <= k < i ==> upper(b@[k]) == lit@[k],
        decreases n - i,
    {
        if upper_byte(b[i]) != lit[i] {
            proof {
                assert(upper_seq(b@).take(n as int)[i as int] == upper(b@[i as int]));
            }
            return false;
        }
        i = i + 1;
    }
    proof {
        assert(upper_seq(b@).take(n as int) =~= lit@);
    }
    true
}

/// Whether every byte of `b` is visible ASCII.
fn check_visible(b: &[u8]) -> (r: bool)
    ensures
        r == all_visible(b@),
{
    let n = b.len();
    let mut i: usize = 0;
    while i < n
        invariant
            i <= n,
            n == b@.len(),
            forall|k: int| 0 <= k < i ==> is_visible(b@[k]),
        decreases n - i,
    {
        if b[i] < 33 || b[i] > 126 {
            return false;
        }
        i = i + 1;
    }
    true
}

/// Whether every byte of `b` is visible ASCII or a space.
fn check_visible_or_space(b: &[u8]) -> (r: bool)
    ensures
        r == all_visible_or_space(b@),
{
    let n = b.len();
    let mut i: usize = 0;
    while i < n
        invariant
            i <= n,
            n == b@.len(),
            forall|k: int| 0 <= k < i ==> (is_visible(b@[k]) || b@[k] == 32),
        decreases n - i,
    {
        if (b[i] < 33 || b[i] > 126) && b[i] != 32 {
            return false;
        }
        i = i + 1;
    }
    true
}

/// The string of a run of visible (hence ASCII) bytes.
fn visible_to_string(b: &[u8]) -> (r: String)
    requires
        all_visible(b@),
    ensures
        r@ == ascii_chars(b@),
{
    proof {
        lemma_ascii_utf8(b@);
    }
    crate::sasl::utf8_to_string(slice_to_vec(b))
}

/// The index of the first occurrence of `t` in `b`.
fn scan_byte(b: &[u8], t: u8) -> (r: Option<usize>)
    ensures
        r matches Some(k) ==> k == find_byte(b@, t) && k < b@.len(),
        r is None ==> find_byte(b@, t) == -1,
{
    let n = b.len();
    let mut i: usize = 0;
    while i < n
        invariant
            i <= n,
            n == b@.len(),
            forall|k: int| 0 <= k < i ==> b@[k] != t,
        decreases n - i,
    {
        if b[i] == t {
            proof {
                lemma_find_byte(b@, t);
            }
            return Some(i);
        }
        i = i + 1;
    }
    proof {
        lemma_find_byte(b@, t);
    }
    None
}

/// Classify one CRLF-terminated command line.
pub fn parse(line: &[u8]) -> (r: Result<Cmd, Response>)
    ensures
        match r {
            Ok(c) => parse_spec(line@) == Ok::<CmdModel, ResponseModel>(c@),
            Err(e) => parse_spec(line@) == Err::<CmdModel, ResponseModel>(e@),
        },
{
    let n = line.len();
    if n < 2 || line[n - 2] != 13 || line[n - 1] != 10 {
        return Err(Response::syntax_error());
    }
    let body = slice_subrange(line, 0, n - 2);
    proof {
        assert(body@ =~= line@.take(line@.len() - 2));
    }
    parse_body(body)
}

/// Classify a command line with the CRLF stripped.
fn parse_body(b: &[u8]) -> (r: Result<Cmd, Response>)
    ensures
        match r {
            Ok(c) => parse_body_spec(b@) == Ok::<CmdModel, ResponseModel>(c@),
            Err(e) => parse_body_spec(b@) == Err::<CmdModel, ResponseModel>(e@),
        },
{
    proof {
        reveal_strlit("DATA");
        reveal_strlit("RSET");
        reveal_strlit("QUIT");
        reveal_strlit("NOOP");
        reveal_strlit("STARTTLS");
        reveal_strlit("VRFY");
        reveal_strlit("VRFY ");
        reveal_strlit("HELO ");
        reveal_strlit("EHLO ");
        reveal_strlit("MAIL FROM:");
        reveal_strlit("RCPT TO:");
        reveal_strlit("AUTH ");
    }
    let bn = b.len();
    if upper_eq(b, &lit_bytes("DATA")) {
        Ok(Cmd::Data)
    } else if upper_eq(b, &lit_bytes("RSET")) {
        Ok(Cmd::Rset)
    } else if upper_eq(b, &lit_bytes("QUIT")) {
        Ok(Cmd::Quit)
    } else if upper_eq(b, &lit_bytes("NOOP")) {
        Ok(Cmd::Noop)
    } else if upper_eq(b, &lit_bytes("STARTTLS")) {
        Ok(Cmd::StartTls)
    } else if upper_eq(b, &lit_bytes("VRFY")) || upper_prefix(b, &lit_bytes("VRFY ")) {
        Ok(Cmd::Vrfy)
    } else if upper_prefix(b, &lit_bytes("HELO ")) {
        parse_domain(slice_subrange(b, 5, bn), true)
    } else if upper_prefix(b, &lit_bytes("EHLO ")) {
        parse_domain(slice_subrange(b, 5, bn), false)
    } else if upper_prefix(b, &lit_bytes("MAIL FROM:")) {
        parse_mail(slice_subrange(b, 10, bn))
    } else if upper_prefix(b, &lit_bytes("RCPT TO:")) {
        parse_rcpt(slice_subrange(b, 8, bn))
    } else if upper_prefix(b, &lit_bytes("AUTH ")) {
        parse_auth(slice_subrange(b, 5, bn))
    } else {
        Err(Response::syntax_error())
    }
}

fn parse_domain(rest: &[u8], is_helo: bool) -> (r: Result<Cmd, Response>)
    ensures
        match r {
            Ok(c) => domain_spec(rest@, is_helo) == Ok::<CmdModel, ResponseModel>(c@),
            Err(e) => domain_spec(rest@, is_helo) == Err::<CmdModel, ResponseModel>(e@),
        },
{
    if rest.len() == 0 || !check_visible(rest) {
        return Err(Response::invalid_parameter());
    }
    let domain = visible_to_string(rest);
    if is_helo {
        Ok(Cmd::Helo { domain })
    } else {
        Ok(Cmd::Ehlo { domain })
    }
}

fn parse_mail(rest: &[u8]) -> (r: Result<Cmd, Response>)
    ensures
        match r {
            Ok(c) => mail_spec(rest@) == Ok::<CmdModel, ResponseModel>(c@),
            Err(e) => mail_spec(rest@) == Err::<CmdModel, ResponseModel>(e@),
        },
{
    let rn = rest.len();
    if rn == 0 || rest[0] != 60 {
        return Err(Response::invalid_parameter());
    }
    let close = match scan_byte(rest, 62) {
        Some(k) => k,
        None => {
            return Err(Response::invalid_parameter());
        },
    };
    let path = slice_subrange(rest, 1, close);
    let params = slice_subrange(rest, close + 1, rn);
    proof {
        assert(path@ =~= rest@.subrange(1, find_byte(rest@, 62)));
        assert(params@ =~= rest@.skip(find_byte(rest@, 62) + 1));
    }
    if !check_visible(path) {
        return Err(Response::invalid_parameter());
    }
    let reverse_path = visible_to_string(path);
    if params.len() == 0 {
        return Ok(Cmd::Mail { reverse_path, is8bit: false });
    }
    proof {
        reveal_strlit(" BODY=8BITMIME");
    }
    if upper_eq(params, &lit_bytes(" BODY=8BITMIME")) {
        return Ok(Cmd::Mail { reverse_path, is8bit: true });
    }
    if params[0] == 32 && check_visible_or_space(params) {
        return Ok(Cmd::Mail { reverse_path, is8bit: false });
    }
    Err(Response::invalid_parameter())
}

fn parse_rcpt(rest: &[u8]) -> (r: Result<Cmd, Response>)
    ensures
        match r {
            Ok(c) => rcpt_spec(rest@) == Ok::<CmdModel, ResponseModel>(c@),
            Err(e) => rcpt_spec(rest@) == Err::<CmdModel, ResponseModel>(e@),
        },
{
    let rn = rest.len();
    if rn == 0 || rest[0] != 60 {
        return Err(Response::invalid_parameter());
    }
    let close = match scan_byte(rest, 62) {
        Some(k) => k,
        None => {
            return Err(Response::invalid_parameter());
        },
    };
    let path = slice_subrange(rest, 1, close);
    let params = slice_subrange(rest, close + 1, rn);
    proof {
        assert(path@ =~= rest@.subrange(1, find_byte(rest@, 62)));
        assert(params@ =~= rest@.skip(find_byte(rest@, 62) + 1));
    }
    if !check_visible(path) {
        return Err(Response::invalid_parameter());
    }
    let forward_path = visible_to_string(path);
    if params.len() == 0 {
        return Ok(Cmd::Rcpt { forward_path });
    }
    if params[0] == 32 && check_visible_or_space(params) {
        return Ok(Cmd::Rcpt { forward_path });
    }
    Err(Response::invalid_parameter())
}

fn parse_auth(rest: &[u8]) -> (r: Result<Cmd, Response>)
    ensures
        match r {
            Ok(c) => auth_spec(rest@) == Ok::<CmdModel, ResponseModel>(c@),
            Err(e) => auth_spec(rest@) == Err::<CmdModel, ResponseModel>(e@),
        },
{
    proof {
        reveal_strlit("PLAIN");
        reveal_strlit("LOGIN");
        reveal_strlit("PLAIN ");
        reveal_strlit("LOGIN ");
    }
    let rn = rest.len();
    if upper_eq(rest, &lit_bytes("PLAIN")) {
        Ok(Cmd::AuthPlainEmpty)
    } else if upper_eq(rest, &lit_bytes("LOGIN")) {
        Ok(Cmd::AuthLoginEmpty)
    } else if upper_prefix(rest, &lit_bytes("PLAIN ")) {
        let creds = decode_sasl_plain(slice_subrange(rest, 6, rn));
        proof {
            assert(rest@.subrange(6, rest@.len() as int) =~= rest@.skip(6));
        }
        Ok(Cmd::AuthPlain {
            authorization_id: creds.authorization_id,
            authentication_id: creds.authentication_id,
            password: creds.password,
        })
    } else if upper_prefix(rest, &lit_bytes("LOGIN ")) {
        proof {
            assert(rest@.subrange(6, rest@.len() as int) =~= rest@.skip(6));
        }
        Ok(Cmd::AuthLogin { username: decode_sasl_login(slice_subrange(rest, 6, rn)) })
    } else {
        Err(Response::invalid_parameter())
    }
}

/// Classify one line inside a pending AUTH exchange: the raw payload
/// is returned for the state machine's SASL decoders.
pub fn parse_auth_response(line: &[u8]) -> (r: Result<Vec<u8>, Response>)
    ensures
        match r {
            Ok(p) => auth_response_spec(line@) == Ok::<Seq<u8>, ResponseModel>(p@),
            Err(e) => auth_response_spec(line@) == Err::<Seq<u8>, ResponseModel>(e@),
        },
{
    let n = line.len();
    if n < 2 || line[n - 2] != 13 || line[n - 1] != 10 {
        return Err(Response::syntax_error());
    }
    let body = slice_subrange(line, 0, n - 2);
    proof {
        assert(body@ =~= line@.take(line@.len() - 2));
    }
    Ok(slice_to_vec(body))
}

} // verus!
