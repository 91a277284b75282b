//! SASL payload decoding: base64 (RFC 4648) and the PLAIN and LOGIN
//! credential layouts. Any failure while decoding yields empty
//! credentials; authentication then fails downstream, as the protocol
//! intends.

use vstd::prelude::*;
use vstd::utf8::{decode_utf8, valid_utf8};

verus! {

/// The value of one base64 alphabet byte, or -1 when the byte is not
/// in the alphabet (`=` is handled by the block decoder, not here).
pub open spec fn b64_value(b: u8) -> int {
    if 65 <= b <= 90 {  // 'A'..'Z'
        b - 65
    } else if 97 <= b <= 122 {  // 'a'..'z'
        b - 97 + 26
    } else if 48 <= b <= 57 {  // '0'..'9'
        b - 48 + 52
    } else if b == 43 {  // '+'
        62
    } else if b == 47 {  // '/'
        63
    } else {
        -1
    }
}

/// The three bytes encoded by a full block of four sextet values.
pub open spec fn b64_block3(a: int, b: int, c: int, d: int) -> Seq<u8> {
    seq![
        (a * 4 + b / 16) as u8,
        ((b % 16) * 16 + c / 4) as u8,
        ((c % 4) * 64 + d) as u8,
    ]
}

/// Base64 decoding of a whole input: blocks of four alphabet bytes,
/// where only the last block may end in `=` or `==`. `None` when the
/// length is not a multiple of four or a byte is out of place.
pub open spec fn b64_decode(s: Seq<u8>) -> Option<Seq<u8>>
    decreases s.len(),
{
    if s.len() == 0 {
        Some(Seq::empty())
    } else if s.len() < 4 {
        None
    } else if s.len() == 4 {
        let a = b64_value(s[0]);
        let b = b64_value(s[1]);
        if a < 0 || b < 0 {
            None
        } else if s[2] == 61 && s[3] == 61 {  // "xx=="
            Some(seq![(a * 4 + b / 16) as u8])
        } else if s[3] == 61 {  // "xxx="
            let c = b64_value(s[2]);
            if c < 0 {
                None
            } else {
                Some(seq![(a * 4 + b / 16) as u8, ((b % 16) * 16 + c / 4) as u8])
            }
        } else {
            let c = b64_value(s[2]);
            let d = b64_value(s[3]);
            if c < 0 || d < 0 {
                None
            } else {
                Some(b64_block3(a, b, c, d))
            }
        }
    } else {
        let a = b64_value(s[0]);
        let b = b64_value(s[1]);
        let c = b64_value(s[2]);
        let d = b64_value(s[3]);
        if a < 0 || b < 0 || c < 0 || d < 0 {
            None
        } else {
            match b64_decode(s.skip(4)) {
                Some(rest) => Some(b64_block3(a, b, c, d) + rest),
                None => None,
            }
        }
    }
}

/// The index of the first NUL byte, or -1 when there is none.
pub open spec fn find_nul(s: Seq<u8>) -> int
    decreases s.len(),
{
    if s.len() == 0 {
        -1
    } else if s[0] == 0 {
        0
    } else {
        let r = find_nul(s.skip(1));
        if r < 0 {
            -1
        } else {
            r + 1
        }
    }
}

pub proof fn lemma_find_nul(s: Seq<u8>)
    ensures
        find_nul(s) == -1 ==> forall|k: int| 0 <= k < s.len() ==> s[k] != 0,
        find_nul(s) >= 0 ==> {
            &&& find_nul(s) < s.len()
            &&& s[find_nul(s)] == 0
            &&& forall|k: int| 0 <= k < find_nul(s) ==> s[k] != 0
        },
    decreases s.len(),
{
    if s.len() > 0 && s[0] != 0 {
        lemma_find_nul(s.skip(1));
        assert forall|k: int| 0 <= k < s.len() && find_nul(s) == -1 implies s[k] != 0 by {
            if k > 0 {
                assert(s.skip(1)[k - 1] == s[k]);
            }
        }
        if find_nul(s) >= 0 {
            assert(s.skip(1)[find_nul(s) - 1] == s[find_nul(s)]);
            assert forall|k: int| 0 <= k < find_nul(s) implies s[k] != 0 by {
                if k > 0 {
                    assert(s.skip(1)[k - 1] == s[k]);
                }
            }
        }
    }
}

/// The characters encoded by ASCII bytes.
pub open spec fn ascii_chars(s: Seq<u8>) -> Seq<char> {
    s.map_values(|b: u8| b as char)
}

/// ASCII bytes are valid UTF-8 and decode to themselves.
pub proof fn lemma_ascii_utf8(s: Seq<u8>)
    requires
        forall|i: int| 0 <= i < s.len() ==> s[i] < 128,
    ensures
        valid_utf8(s),
        decode_utf8(s) == ascii_chars(s),
    decreases s.len(),
{
    if s.len() == 0 {
        assert(decode_utf8(s) =~= ascii_chars(s));
    } else {
        let b = s[0];
        assert(b & 0x7f == b) by (bit_vector)
            requires
                b < 128,
        ;
        assert(vstd::utf8::length_of_first_scalar(s) == 1);
        assert(vstd::utf8::pop_first_scalar(s) =~= s.skip(1));
        lemma_ascii_utf8(s.skip(1));
        assert(decode_utf8(s) =~= ascii_chars(s));
    }
}

/// A decoded PLAIN credential triple. An authorization id may be
/// empty; all three are empty when decoding failed.
pub struct Credentials {
    pub authorization_id: String,
    pub authentication_id: String,
    pub password: String,
}

/// The PLAIN credential triple carried by a base64 payload:
/// `authzid NUL authcid NUL passwd`, each part UTF-8. Any defect (bad
/// base64, a NUL count other than two, bad UTF-8) yields empty
/// credentials.
pub open spec fn sasl_plain_model(line: Seq<u8>) -> (Seq<char>, Seq<char>, Seq<char>) {
    match b64_decode(line) {
        None => (Seq::empty(), Seq::empty(), Seq::empty()),
        Some(bytes) => {
            let i = find_nul(bytes);
            if i < 0 {
                (Seq::empty(), Seq::empty(), Seq::empty())
            } else {
                let rest = bytes.skip(i + 1);
                let j = find_nul(rest);
                if j < 0 {
                    (Seq::empty(), Seq::empty(), Seq::empty())
                } else {
                    let p1 = bytes.take(i);
                    let p2 = rest.take(j);
                    let p3 = rest.skip(j + 1);
                    if find_nul(p3) >= 0 || !valid_utf8(p1) || !valid_utf8(p2) || !valid_utf8(p3) {
                        (Seq::empty(), Seq::empty(), Seq::empty())
                    } else {
                        (decode_utf8(p1), decode_utf8(p2), decode_utf8(p3))
                    }
                }
            }
        },
    }
}

/// The single credential carried by a base64 payload of the LOGIN
/// exchange; empty when base64 or UTF-8 decoding fails.
pub open spec fn sasl_login_model(line: Seq<u8>) -> Seq<char> {
    match b64_decode(line) {
        None => Seq::empty(),
        Some(bytes) => {
            if valid_utf8(bytes) {
                decode_utf8(bytes)
            } else {
                Seq::empty()
            }
        },
    }
}

/// Relies on `String::from_utf8`: it succeeds exactly on valid UTF-8
/// input and returns the string of the decoded scalar values.
#[verifier::external_body]
fn string_from_utf8(bytes: Vec<u8>) -> (r: Option<String>)
    ensures
        r is Some <==> valid_utf8(bytes@),
        r matches Some(s) ==> s@ == decode_utf8(bytes@),
{
    String::from_utf8(bytes).ok()
}

/// The string of bytes already known to be valid UTF-8.
pub fn utf8_to_string(bytes: Vec<u8>) -> (r: String)
    requires
        valid_utf8(bytes@),
    ensures
        r@ == decode_utf8(bytes@),
{
    match string_from_utf8(bytes) {
        Some(s) => s,
        None => vstd::pervasive::unreached(),
    }
}

/// The value of one base64 alphabet byte.
fn b64_val(b: u8) -> (r: Option<u8>)
    ensures
        r matches Some(v) ==> b64_value(b) == v && v < 64,
        r is None ==> b64_value(b) < 0,
{
    if 65 <= b && b <= 90 {
        Some(b - 65)
    } else if 97 <= b && b <= 122 {
        Some(b - 97 + 26)
    } else if 48 <= b && b <= 57 {
        Some(b - 48 + 52)
    } else if b == 43 {
        Some(62)
    } else if b == 47 {
        Some(63)
    } else {
        None
    }
}

/// Decode a whole base64 input, strictly: four-byte blocks, `=`
/// padding only at the very end.
pub fn base64_decode(s: &[u8]) -> (r: Option<Vec<u8>>)
    ensures
        match r {
            Some(v) => b64_decode(s@) == Some(v@),
            None => b64_decode(s@) is None,
        },
{
    let n = s.len();
    let mut out: Vec<u8> = Vec::new();
    let mut i: usize = 0;
    proof {
        assert(s@.skip(0) =~= s@);
    }
    while n - i > 4
        invariant
            i % 4 == 0,
            i <= n,
            n == s@.len(),
            match b64_decode(s@.skip(i as int)) {
                Some(rest) => b64_decode(s@) == Some(out@ + rest),
                None => b64_decode(s@) is None,
            },
        decreases n - i,
    {
        let a = b64_val(s[i]);
        let b = b64_val(s[i + 1]);
        let c = b64_val(s[i + 2]);
        let d = b64_val(s[i + 3]);
        proof {
            assert(s@.skip(i as int).len() > 4);
            assert(s@.skip(i as int)[0] == s@[i as int]);
            assert(s@.skip(i as int)[1] == s@[i as int + 1]);
            assert(s@.skip(i as int)[2] == s@[i as int + 2]);
            assert(s@.skip(i as int)[3] == s@[i as int + 3]);
            assert(s@.skip(i as int).skip(4) =~= s@.skip(i as int + 4));
        }
        match (a, b, c, d) {
            (Some(a), Some(b), Some(c), Some(d)) => {
                let ghost prev = out@;
                out.push(a * 4 + b / 16);
                out.push((b % 16) * 16 + c / 4);
                out.push((c % 4) * 64 + d);
                proof {
                    assert(out@ =~= prev + b64_block3(
                        b64_value(s@[i as int]),
                        b64_value(s@[i as int + 1]),
                        b64_value(s@[i as int + 2]),
                        b64_value(s@[i as int + 3]),
                    ));
                    match b64_decode(s@.skip(i as int + 4)) {
                        Some(rest) => {
                            assert(out@ + rest =~= prev + (b64_block3(
                                b64_value(s@[i as int]),
                                b64_value(s@[i as int + 1]),
                                b64_value(s@[i as int + 2]),
                                b64_value(s@[i as int + 3]),
                            ) + rest));
                        },
                        None => {},
                    }
                }
                i = i + 4;
            },
            _ => {
                return None;
            },
        }
    }
    if i == n {
        proof {
            assert(s@.skip(i as int) =~= Seq::<u8>::empty());
            assert(out@ + Seq::<u8>::empty() =~= out@);
        }
        return Some(out);
    }
    if n - i != 4 {
        return None;
    }
    // the last block: padding allowed
    proof {
        assert(s@.skip(i as int).len() == 4);
        assert(s@.skip(i as int)[0] == s@[i as int]);
        assert(s@.skip(i as int)[1] == s@[i as int + 1]);
        assert(s@.skip(i as int)[2] == s@[i as int + 2]);
        assert(s@.skip(i as int)[3] == s@[i as int + 3]);
    }
    let a = match b64_val(s[i]) {
        Some(v) => v,
        None => {
            return None;
        },
    };
    let b = match b64_val(s[i + 1]) {
        Some(v) => v,
        None => {
            return None;
        },
    };
    let ghost prev = out@;
    if s[i + 2] == 61 && s[i + 3] == 61 {
        out.push(a * 4 + b / 16);
        proof {
            assert(out@ =~= prev + seq![(b64_value(s@[i as int]) * 4 + b64_value(
                s@[i as int + 1],
            ) / 16) as u8]);
        }
        return Some(out);
    }
    if s[i + 3] == 61 {
        let c = match b64_val(s[i + 2]) {
            Some(v) => v,
            None => {
                return None;
            },
        };
        out.push(a * 4 + b / 16);
        out.push((b % 16) * 16 + c / 4);
        proof {
            assert(out@ =~= prev + seq![
                (b64_value(s@[i as int]) * 4 + b64_value(s@[i as int + 1]) / 16) as u8,
                ((b64_value(s@[i as int + 1]) % 16) * 16 + b64_value(s@[i as int + 2]) / 4) as u8,
            ]);
        }
        return Some(out);
    }
    let c = match b64_val(s[i + 2]) {
        Some(v) => v,
        None => {
            return None;
        },
    };
    let d = match b64_val(s[i + 3]) {
        Some(v) => v,
        None => {
            return None;
        },
    };
    out.push(a * 4 + b / 16);
    out.push((b % 16) * 16 + c / 4);
    out.push((c % 4) * 64 + d);
    proof {
        assert(out@ =~= prev + b64_block3(
            b64_value(s@[i as int]),
            b64_value(s@[i as int + 1]),
            b64_value(s@[i as int + 2]),
            b64_value(s@[i as int + 3]),
        ));
    }
    Some(out)
}

/// The index of the first NUL at or after the start of `v`.
fn scan_nul(v: &Vec<u8>) -> (r: Option<usize>)
    ensures
        r matches Some(k) ==> k == find_nul(v@) && k < v@.len(),
        r is None ==> find_nul(v@) == -1,
{
    let n = v.len();
    let mut i: usize = 0;
    while i < n
        invariant
            i <= n,
            n == v@.len(),
            forall|k: int| 0 <= k < i ==> v@[k] != 0,
        decreases n - i,
    {
        if v[i] == 0 {
            proof {
                lemma_find_nul(v@);
            }
            return Some(i);
        }
        i = i + 1;
    }
    proof {
        lemma_find_nul(v@);
    }
    None
}

/// A copy of `s[from..to]`.
fn sub_vec(s: &Vec<u8>, from: usize, to: usize) -> (r: Vec<u8>)
    requires
        from <= to <= s@.len(),
    ensures
        r@ == s@.subrange(from as int, to as int),
{
    let mut out: Vec<u8> = Vec::new();
    let mut i: usize = from;
    while i < to
        invariant
            from <= i <= to <= s@.len(),
            out@ =~= s@.subrange(from as int, i as int),
        decreases to - i,
    {
        out.push(s[i]);
        proof {
            assert(out@ =~= s@.subrange(from as int, i + 1 as int));
        }
        i = i + 1;
    }
    out
}

fn empty_credentials() -> (r: Credentials)
    ensures
        r.authorization_id@ == Seq::<char>::empty(),
        r.authentication_id@ == Seq::<char>::empty(),
        r.password@ == Seq::<char>::empty(),
{
    Credentials {
        authorization_id: String::new(),
        authentication_id: String::new(),
        password: String::new(),
    }
}

/// Decode the base64 payload of `AUTH PLAIN` into its credential
/// triple; failures yield empty credentials.
pub fn decode_sasl_plain(line: &[u8]) -> (r: Credentials)
    ensures
        (r.authorization_id@, r.authentication_id@, r.password@) == sasl_plain_model(line@),
{
    let decoded = match base64_decode(line) {
        Some(v) => v,
        None => {
            return empty_credentials();
        },
    };
    let i = match scan_nul(&decoded) {
        Some(i) => i,
        None => {
            return empty_credentials();
        },
    };
    let dn = decoded.len();
    let rest = sub_vec(&decoded, i + 1, dn);
    proof {
        assert(rest@ =~= decoded@.skip(i + 1));
    }
    let j = match scan_nul(&rest) {
        Some(j) => j,
        None => {
            return empty_credentials();
        },
    };
    let p1 = sub_vec(&decoded, 0, i);
    let p2 = sub_vec(&rest, 0, j);
    let rn = rest.len();
    let p3 = sub_vec(&rest, j + 1, rn);
    proof {
        assert(p1@ =~= decoded@.take(i as int));
        assert(p2@ =~= rest@.take(j as int));
        assert(p3@ =~= rest@.skip(j + 1));
    }
    if scan_nul(&p3).is_some() {
        return empty_credentials();
    }
    let s1 = match string_from_utf8(p1) {
        Some(s) => s,
        None => {
            return empty_credentials();
        },
    };
    let s2 = match string_from_utf8(p2) {
        Some(s) => s,
        None => {
            return empty_credentials();
        },
    };
    let s3 = match string_from_utf8(p3) {
        Some(s) => s,
        None => {
            return empty_credentials();
        },
    };
    Credentials { authorization_id: s1, authentication_id: s2, password: s3 }
}

/// Decode one base64 payload of the LOGIN exchange (a username or a
/// password); failures yield an empty credential.
pub fn decode_sasl_login(line: &[u8]) -> (r: String)
    ensures
        r@ == sasl_login_model(line@),
{
    let decoded = match base64_decode(line) {
        Some(v) => v,
        None => {
            return String::new();
        },
    };
    match string_from_utf8(decoded) {
        Some(s) => s,
        None => String::new(),
    }
}

} // verus!
