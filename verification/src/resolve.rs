//! The computational side of the bundled DNS lookup helper: turning a
//! query name into printable text, and choosing a result from the
//! per-record outcomes of a parsed answer section. The network side
//! (sockets, timeouts, packet parsing) lives with the host.

use crate::smtp::IpAddress;
use vstd::prelude::*;
use vstd::utf8::{decode_utf8, valid_utf8};

verus! {

/// What `String::from_utf8_lossy` yields: a function of the bytes
/// alone.
pub uninterp spec fn lossy_chars(bytes: Seq<u8>) -> Seq<char>;

/// Relies on `String::from_utf8_lossy`: the result depends on the
/// bytes alone, and valid UTF-8 is returned unchanged (decoded).
#[verifier::external_body]
fn lossy_string(bytes: &[u8]) -> (r: String)
    ensures
        r@ == lossy_chars(bytes@),
        valid_utf8(bytes@) ==> r@ == decode_utf8(bytes@),
{
    String::from_utf8_lossy(bytes).to_string()
}

/// The printable form of a DNS query name: valid UTF-8 is decoded
/// as-is, anything else with replacement characters.
pub fn query_string(query: &[u8]) -> (r: String)
    ensures
        r@ == lossy_chars(query@),
        valid_utf8(query@) ==> r@ == decode_utf8(query@),
{
    lossy_string(query)
}

/// The addresses of the records that parsed, in order.
pub open spec fn answer_ips(s: Seq<Result<IpAddress, String>>) -> Seq<IpAddress>
    decreases s.len(),
{
    if s.len() == 0 {
        Seq::empty()
    } else {
        let rest = answer_ips(s.drop_last());
        match s.last() {
            Ok(ip) => rest.push(ip),
            Err(_) => rest,
        }
    }
}

/// The first per-record error, when there is one.
pub open spec fn first_err(s: Seq<Result<IpAddress, String>>) -> Option<Seq<char>>
    decreases s.len(),
{
    if s.len() == 0 {
        None
    } else {
        match s[0] {
            Err(e) => Some(e@),
            Ok(_) => first_err(s.skip(1)),
        }
    }
}

proof fn lemma_first_err_push(s: Seq<Result<IpAddress, String>>, x: Result<IpAddress, String>)
    ensures
        first_err(s.push(x)) == (if first_err(s) is Some {
            first_err(s)
        } else {
            match x {
                Err(e) => Some(e@),
                Ok(_) => None,
            }
        }),
    decreases s.len(),
{
    if s.len() == 0 {
        assert(s.push(x).len() == 1);
        assert(s.push(x)[0] == x);
        match x {
            Err(e) => {
                assert(first_err(s.push(x)) == Some(e@));
            },
            Ok(_) => {
                assert(s.push(x).skip(1) =~= Seq::<Result<IpAddress, String>>::empty());
                assert(first_err(Seq::<Result<IpAddress, String>>::empty()) is None);
                assert(first_err(s.push(x)) is None);
            },
        }
    } else {
        assert(s.push(x)[0] == s[0]);
        assert(s.push(x).skip(1) =~= s.skip(1).push(x));
        lemma_first_err_push(s.skip(1), x);
        match s[0] {
            Err(e) => {
                assert(first_err(s.push(x)) == Some(e@));
                assert(first_err(s) == Some(e@));
            },
            Ok(_) => {
                assert(first_err(s.push(x)) == first_err(s.skip(1).push(x)));
                assert(first_err(s) == first_err(s.skip(1)));
            },
        }
    }
}

/// Choose the lookup's outcome from the per-record outcomes: the
/// parsed addresses when any record parsed (bad records are then
/// ignored), the first error when none did, and the empty address
/// list when there were no records at all.
pub fn partition_answers(answers: Vec<Result<IpAddress, String>>) -> (r: Result<
    Vec<IpAddress>,
    String,
>)
    ensures
        answer_ips(answers@).len() > 0 ==> (r matches Ok(v) && v@ == answer_ips(answers@)),
        (answer_ips(answers@).len() == 0 && first_err(answers@) is Some) ==> (r matches Err(m)
            && Some(m@) == first_err(answers@)),
        (answer_ips(answers@).len() == 0 && first_err(answers@) is None) ==> (r matches Ok(v)
            && v@.len() == 0),
{
    let n = answers.len();
    let mut ips: Vec<IpAddress> = Vec::new();
    let mut err: Option<String> = None;
    let mut i: usize = 0;
    proof {
        assert(answers@.take(0) =~= Seq::<Result<IpAddress, String>>::empty());
    }
    while i < n
        invariant
            i <= n,
            n == answers@.len(),
            ips@ == answer_ips(answers@.take(i as int)),
            match err {
                Some(e) => first_err(answers@.take(i as int)) == Some(e@),
                None => first_err(answers@.take(i as int)) is None,
            },
        decreases n - i,
    {
        proof {
            assert(answers@.take(i + 1 as int).drop_last() =~= answers@.take(i as int));
            assert(answers@.take(i + 1 as int).last() == answers@[i as int]);
            lemma_first_err_push(answers@.take(i as int), answers@[i as int]);
            assert(answers@.take(i as int).push(answers@[i as int]) =~= answers@.take(
                i + 1 as int,
            ));
        }
        let a = &answers[i];
        match a {
            Ok(ip) => {
                ips.push(*ip);
            },
            Err(e) => {
                if err.is_none() {
                    err = Some(e.clone());
                }
            },
        }
        i = i + 1;
    }
    proof {
        assert(answers@.take(n as int) =~= answers@);
    }
    if ips.len() > 0 {
        return Ok(ips);
    }
    match err {
        Some(e) => Err(e),
        None => Ok(ips),
    }
}

} // verus!
