//! The request dispatcher's pure core: request-target construction,
//! target validation, and the classification of transport outcomes
//! into decoded envelopes or errors. Both backends run exactly this
//! pipeline, so their results agree outcome for outcome.
use crate::builder::query_view;
use crate::error::{Error, HttpResponse, Outcome};
use crate::json::{json_of, parse_json};
use crate::model::{
    decode_many, decode_one, many_of, one_of, resources_view, Resource, Response,
};
use vstd::prelude::*;
use vstd::string::StringExecFns;

verus! {

/// The decimal digit with value `n`.
pub open spec fn digit_char(n: nat) -> char {
    if n == 0 {
        '0'
    } else if n == 1 {
        '1'
    } else if n == 2 {
        '2'
    } else if n == 3 {
        '3'
    } else if n == 4 {
        '4'
    } else if n == 5 {
        '5'
    } else if n == 6 {
        '6'
    } else if n == 7 {
        '7'
    } else if n == 8 {
        '8'
    } else {
        '9'
    }
}

/// The decimal digits of `n`, most significant first.
pub open spec fn dec_digits(n: nat) -> Seq<char>
    decreases n,
{
    if n < 10 {
        seq![digit_char(n)]
    } else {
        dec_digits(n / 10) + seq![digit_char(n % 10)]
    }
}

fn digit_str(n: u64) -> (r: &'static str)
    requires
        n < 10,
    ensures
        r@ == seq![digit_char(n as nat)],
{
    let s: &'static str = match n {
        0 => "0",
        1 => "1",
        2 => "2",
        3 => "3",
        4 => "4",
        5 => "5",
        6 => "6",
        7 => "7",
        8 => "8",
        _ => "9",
    };
    proof {
        reveal_strlit("0");
        reveal_strlit("1");
        reveal_strlit("2");
        reveal_strlit("3");
        reveal_strlit("4");
        reveal_strlit("5");
        reveal_strlit("6");
        reveal_strlit("7");
        reveal_strlit("8");
        reveal_strlit("9");
        assert(s@ =~= seq![digit_char(n as nat)]);
    }
    s
}

/// Writes `n` in decimal.
pub fn u64_to_dec(n: u64) -> (r: String)
    ensures
        r@ == dec_digits(n as nat),
    decreases n,
{
    if n < 10 {
        digit_str(n).to_owned()
    } else {
        let mut s = u64_to_dec(n / 10);
        s.append(digit_str(n % 10));
        proof {
            assert(s@ =~= dec_digits(n as nat));
        }
        s
    }
}

/// The API root every target starts from.
pub open spec fn api_url_view() -> Seq<char> {
    "https://kitsu.io/api/edge"@
}

/// The target of a by-id request: `<base>/<path>/<id>`.
pub open spec fn get_target(path: Seq<char>, id: nat) -> Seq<char> {
    api_url_view() + "/"@ + path + "/"@ + dec_digits(id)
}

/// The target of a search request: `<base>/<path>?<query>`. The `?`
/// stands even with an empty query, as the produced URLs always have.
pub open spec fn search_target(path: Seq<char>, query: Seq<char>) -> Seq<char> {
    api_url_view() + "/"@ + path + "?"@ + query
}

/// Builds the target of a by-id request.
pub fn build_get_target(path: &str, id: u64) -> (r: String)
    ensures
        r@ == get_target(path@, id as nat),
{
    let mut s = crate::API_URL.to_owned();
    s.append("/");
    s.append(path);
    s.append("/");
    let digits = u64_to_dec(id);
    s.append(digits.as_str());
    s
}

/// Builds the target of a search request.
pub fn build_search_target(path: &str, query: &str) -> (r: String)
    ensures
        r@ == search_target(path@, query@),
{
    let mut s = crate::API_URL.to_owned();
    s.append("/");
    s.append(path);
    s.append("?");
    s.append(query);
    s
}

/// Whether a string parses as a URL the transport can be handed.
pub uninterp spec fn uri_ok(s: Seq<char>) -> bool;

/// Relies on http::Uri's FromStr implementation: whether a string
/// parses as a URI, and with which diagnostic it fails, depends on the
/// string's characters alone.
#[verifier::external_body]
pub(crate) fn check_uri(s: &str) -> (r: Option<String>)
    ensures
        (r is None) == uri_ok(s@),
{
    match s.parse::<http::Uri>() {
        Ok(_) => None,
        Err(e) => Some(e.to_string()),
    }
}

/// Pins the result owed for one transport outcome when a
/// single-resource envelope is expected: failures map to `Transport`,
/// 400 to `BadRequest`, 401 to `Unauthorized`, any other non-200
/// status to `UnexpectedStatus`, and a 200 body to the decoded
/// envelope or to `Decode`. Only the decode diagnostic text is left
/// open.
pub open spec fn one_result_ok(outcome: Outcome, r: Result<Response<Resource>, Error>) -> bool {
    match outcome {
        Outcome::Failure(msg) => r matches Err(Error::Transport(m)) && m@ == msg@,
        Outcome::Completed(resp) => if resp.status == 400 {
            r matches Err(Error::BadRequest(p)) && p.status == resp.status && p.body@
                == resp.body@
        } else if resp.status == 401 {
            r matches Err(Error::Unauthorized(p)) && p.status == resp.status && p.body@
                == resp.body@
        } else if resp.status != 200 {
            r matches Err(Error::UnexpectedStatus(p)) && p.status == resp.status && p.body@
                == resp.body@
        } else {
            match json_of(resp.body@) {
                None => r matches Err(Error::Decode(_)),
                Some(d) => match one_of(d) {
                    None => r matches Err(Error::Decode(_)),
                    Some(rd) => r matches Ok(env) && env.data@ == rd,
                },
            }
        },
    }
}

/// As `one_result_ok`, for a collection envelope.
pub open spec fn many_result_ok(outcome: Outcome, r: Result<Response<Vec<Resource>>, Error>) -> bool {
    match outcome {
        Outcome::Failure(msg) => r matches Err(Error::Transport(m)) && m@ == msg@,
        Outcome::Completed(resp) => if resp.status == 400 {
            r matches Err(Error::BadRequest(p)) && p.status == resp.status && p.body@
                == resp.body@
        } else if resp.status == 401 {
            r matches Err(Error::Unauthorized(p)) && p.status == resp.status && p.body@
                == resp.body@
        } else if resp.status != 200 {
            r matches Err(Error::UnexpectedStatus(p)) && p.status == resp.status && p.body@
                == resp.body@
        } else {
            match json_of(resp.body@) {
                None => r matches Err(Error::Decode(_)),
                Some(d) => match many_of(d) {
                    None => r matches Err(Error::Decode(_)),
                    Some(rds) => r matches Ok(env) && resources_view(env.data@) == rds,
                },
            }
        },
    }
}

/// Classifies one outcome and decodes a single-resource envelope. A
/// 200 body that is not valid JSON always yields `Decode`.
pub fn conclude_one(outcome: Outcome) -> (r: Result<Response<Resource>, Error>)
    ensures
        one_result_ok(outcome, r),
        (outcome matches Outcome::Completed(resp) && resp.status == 200 && json_of(resp.body@)
            is None) ==> r matches Err(Error::Decode(_)),
{
    match outcome {
        Outcome::Failure(msg) => Err(Error::Transport(msg)),
        Outcome::Completed(resp) => {
            if resp.status == 400 {
                Err(Error::BadRequest(resp))
            } else if resp.status == 401 {
                Err(Error::Unauthorized(resp))
            } else if resp.status != 200 {
                Err(Error::UnexpectedStatus(resp))
            } else {
                match parse_json(resp.body.as_slice()) {
                    Err(e) => Err(Error::Decode(e)),
                    Ok(j) => match decode_one(j) {
                        Some(env) => Ok(env),
                        None => Err(Error::Decode("mismatched envelope shape".to_owned())),
                    },
                }
            }
        },
    }
}

/// Classifies one outcome and decodes a collection envelope. A 200
/// body that is not valid JSON always yields `Decode`.
pub fn conclude_many(outcome: Outcome) -> (r: Result<Response<Vec<Resource>>, Error>)
    ensures
        many_result_ok(outcome, r),
        (outcome matches Outcome::Completed(resp) && resp.status == 200 && json_of(resp.body@)
            is None) ==> r matches Err(Error::Decode(_)),
{
    match outcome {
        Outcome::Failure(msg) => Err(Error::Transport(msg)),
        Outcome::Completed(resp) => {
            if resp.status == 400 {
                Err(Error::BadRequest(resp))
            } else if resp.status == 401 {
                Err(Error::Unauthorized(resp))
            } else if resp.status != 200 {
                Err(Error::UnexpectedStatus(resp))
            } else {
                match parse_json(resp.body.as_slice()) {
                    Err(e) => Err(Error::Decode(e)),
                    Ok(j) => match decode_many(j) {
                        Some(env) => Ok(env),
                        None => Err(Error::Decode("mismatched envelope shape".to_owned())),
                    },
                }
            }
        },
    }
}

/// How a completed dispatch of a by-id request relates to its inputs:
/// an invalid target yields `InvalidUrl` before any exchange; a valid
/// one yields exactly the classification of some transport outcome.
pub open spec fn get_dispatched(path: Seq<char>, id: nat, r: Result<Response<Resource>, Error>) -> bool {
    &&& (!uri_ok(get_target(path, id)) ==> r matches Err(Error::InvalidUrl(_)))
    &&& (uri_ok(get_target(path, id)) ==> exists|o: Outcome| one_result_ok(o, r))
}

/// As `get_dispatched`, for a search over the given filter pairs.
pub open spec fn search_dispatched(
    path: Seq<char>,
    pairs: Seq<(Seq<char>, Seq<char>)>,
    r: Result<Response<Vec<Resource>>, Error>,
) -> bool {
    &&& (!uri_ok(search_target(path, query_view(pairs))) ==> r matches Err(Error::InvalidUrl(_)))
    &&& (uri_ok(search_target(path, query_view(pairs))) ==> exists|o: Outcome| many_result_ok(
        o,
        r,
    ))
}

/// Backends given the same outcome produce structurally equal
/// single-resource results: same success or error kind, equal decoded
/// resources, equal carried responses and transport diagnostics. Only
/// a decode diagnostic's text may differ.
pub proof fn lemma_backends_agree_one(
    outcome: Outcome,
    r1: Result<Response<Resource>, Error>,
    r2: Result<Response<Resource>, Error>,
)
    requires
        one_result_ok(outcome, r1),
        one_result_ok(outcome, r2),
    ensures
        r1 matches Ok(a) ==> (r2 matches Ok(b) && a.data@ == b.data@),
        r1 matches Err(Error::Transport(a)) ==> (r2 matches Err(Error::Transport(b)) && a@
            == b@),
        r1 matches Err(Error::BadRequest(a)) ==> (r2 matches Err(Error::BadRequest(b)) && a.status
            == b.status && a.body@ == b.body@),
        r1 matches Err(Error::Unauthorized(a)) ==> (r2 matches Err(Error::Unauthorized(b))
            && a.status == b.status && a.body@ == b.body@),
        r1 matches Err(Error::UnexpectedStatus(a)) ==> (r2 matches Err(
            Error::UnexpectedStatus(b),
        ) && a.status == b.status && a.body@ == b.body@),
        r1 matches Err(Error::Decode(_)) ==> r2 matches Err(Error::Decode(_)),
{
}

/// As `lemma_backends_agree_one`, for collection results: equal
/// decoded sequences, in the same order.
pub proof fn lemma_backends_agree_many(
    outcome: Outcome,
    r1: Result<Response<Vec<Resource>>, Error>,
    r2: Result<Response<Vec<Resource>>, Error>,
)
    requires
        many_result_ok(outcome, r1),
        many_result_ok(outcome, r2),
    ensures
        r1 matches Ok(a) ==> (r2 matches Ok(b) && resources_view(a.data@) == resources_view(
            b.data@,
        )),
        r1 matches Err(Error::Transport(a)) ==> (r2 matches Err(Error::Transport(b)) && a@
            == b@),
        r1 matches Err(Error::BadRequest(a)) ==> (r2 matches Err(Error::BadRequest(b)) && a.status
            == b.status && a.body@ == b.body@),
        r1 matches Err(Error::Unauthorized(a)) ==> (r2 matches Err(Error::Unauthorized(b))
            && a.status == b.status && a.body@ == b.body@),
        r1 matches Err(Error::UnexpectedStatus(a)) ==> (r2 matches Err(
            Error::UnexpectedStatus(b),
        ) && a.status == b.status && a.body@ == b.body@),
        r1 matches Err(Error::Decode(_)) ==> r2 matches Err(Error::Decode(_)),
{
}

} // verus!

