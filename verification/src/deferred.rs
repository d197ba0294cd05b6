//! The deferred backend: starting an operation builds and checks the
//! request target without any network activity and yields a pending
//! exchange; the caller's runtime (asynchronous or otherwise) performs
//! the GET, buffers the whole body, and hands the outcome back to
//! `resolve`, which completes the result. Outcome for outcome, the
//! completed result equals the blocking backend's.
use crate::builder::Search;
use crate::error::{Error, Outcome};
use crate::model::{Resource, Response};
use crate::request::{
    build_get_target, build_search_target, check_uri, conclude_many, conclude_one, get_target,
    many_result_ok, one_result_ok, search_target, uri_ok,
};
use vstd::prelude::*;

verus! {

/// A pending by-id exchange: the checked target the runtime must GET.
pub struct GetRequest {
    pub target: String,
}

/// A pending search exchange: the checked target the runtime must GET.
pub struct SearchRequest {
    pub target: String,
}

/// Starts a by-id request: builds `<base>/<path>/<id>` and checks it.
/// No request is issued here; an invalid target fails at once.
pub fn start_get(path: &str, id: u64) -> (r: Result<GetRequest, Error>)
    ensures
        match r {
            Ok(p) => uri_ok(get_target(path@, id as nat)) && p.target@ == get_target(
                path@,
                id as nat,
            ),
            Err(e) => !uri_ok(get_target(path@, id as nat)) && e matches Error::InvalidUrl(_),
        },
{
    let target = build_get_target(path, id);
    match check_uri(target.as_str()) {
        Some(diag) => Err(Error::InvalidUrl(diag)),
        None => Ok(GetRequest { target }),
    }
}

/// Starts a search request over an already-built filter set.
pub fn start_search(path: &str, search: Search) -> (r: Result<SearchRequest, Error>)
    ensures
        match r {
            Ok(p) => uri_ok(search_target(path@, crate::builder::query_view(search@)))
                && p.target@ == search_target(path@, crate::builder::query_view(search@)),
            Err(e) => !uri_ok(search_target(path@, crate::builder::query_view(search@)))
                && e matches Error::InvalidUrl(_),
        },
{
    let qs = search.query_string();
    let target = build_search_target(path, qs.as_str());
    match check_uri(target.as_str()) {
        Some(diag) => Err(Error::InvalidUrl(diag)),
        None => Ok(SearchRequest { target }),
    }
}

impl GetRequest {
    /// Completes the deferred computation with the transport's
    /// outcome, classifying it exactly as the blocking backend does.
    pub fn resolve(self, outcome: Outcome) -> (r: Result<Response<Resource>, Error>)
        ensures
            one_result_ok(outcome, r),
    {
        conclude_one(outcome)
    }
}

impl SearchRequest {
    /// Completes the deferred computation with the transport's
    /// outcome, classifying it exactly as the blocking backend does.
    pub fn resolve(self, outcome: Outcome) -> (r: Result<Response<Vec<Resource>>, Error>)
        ensures
            many_result_ok(outcome, r),
    {
        conclude_many(outcome)
    }
}

/// Starts getting an anime by its id.
pub fn get_anime(id: u64) -> (r: Result<GetRequest, Error>)
    ensures
        match r {
            Ok(p) => uri_ok(get_target("anime"@, id as nat)) && p.target@ == get_target(
                "anime"@,
                id as nat,
            ),
            Err(e) => !uri_ok(get_target("anime"@, id as nat)) && e matches Error::InvalidUrl(_),
        },
{
    start_get("anime", id)
}

/// Starts getting a manga by its id.
pub fn get_manga(id: u64) -> (r: Result<GetRequest, Error>)
    ensures
        match r {
            Ok(p) => uri_ok(get_target("manga"@, id as nat)) && p.target@ == get_target(
                "manga"@,
                id as nat,
            ),
            Err(e) => !uri_ok(get_target("manga"@, id as nat)) && e matches Error::InvalidUrl(_),
        },
{
    start_get("manga", id)
}

/// Starts getting a user by their id.
pub fn get_user(id: u64) -> (r: Result<GetRequest, Error>)
    ensures
        match r {
            Ok(p) => uri_ok(get_target("users"@, id as nat)) && p.target@ == get_target(
                "users"@,
                id as nat,
            ),
            Err(e) => !uri_ok(get_target("users"@, id as nat)) && e matches Error::InvalidUrl(_),
        },
{
    start_get("users", id)
}

/// Starts an anime search with the filters the callback accumulates.
pub fn search_anime<F: FnOnce(Search) -> Search>(f: F) -> (r: Result<SearchRequest, Error>)
    requires
        forall|s: Search| s@ == Seq::<(Seq<char>, Seq<char>)>::empty() ==> call_requires(f, (s,)),
    ensures
        exists|s0: Search, s1: Search|
            s0@ == Seq::<(Seq<char>, Seq<char>)>::empty() && call_ensures(f, (s0,), s1) && match r {
                Ok(p) => uri_ok(search_target("anime"@, crate::builder::query_view(s1@)))
                    && p.target@ == search_target("anime"@, crate::builder::query_view(s1@)),
                Err(e) => !uri_ok(search_target("anime"@, crate::builder::query_view(s1@)))
                    && e matches Error::InvalidUrl(_),
            },
{
    let s0 = Search::new();
    let ghost g0 = s0;
    let cfg = f(s0);
    let ghost g1 = cfg;
    let r = start_search("anime", cfg);
    proof {
        assert(g0@ == Seq::<(Seq<char>, Seq<char>)>::empty() && call_ensures(f, (g0,), g1));
    }
    r
}

/// Starts a manga search with the filters the callback accumulates.
pub fn search_manga<F: FnOnce(Search) -> Search>(f: F) -> (r: Result<SearchRequest, Error>)
    requires
        forall|s: Search| s@ == Seq::<(Seq<char>, Seq<char>)>::empty() ==> call_requires(f, (s,)),
    ensures
        exists|s0: Search, s1: Search|
            s0@ == Seq::<(Seq<char>, Seq<char>)>::empty() && call_ensures(f, (s0,), s1) && match r {
                Ok(p) => uri_ok(search_target("manga"@, crate::builder::query_view(s1@)))
                    && p.target@ == search_target("manga"@, crate::builder::query_view(s1@)),
                Err(e) => !uri_ok(search_target("manga"@, crate::builder::query_view(s1@)))
                    && e matches Error::InvalidUrl(_),
            },
{
    let s0 = Search::new();
    let ghost g0 = s0;
    let cfg = f(s0);
    let ghost g1 = cfg;
    let r = start_search("manga", cfg);
    proof {
        assert(g0@ == Seq::<(Seq<char>, Seq<char>)>::empty() && call_ensures(f, (g0,), g1));
    }
    r
}

/// Starts a user search with the filters the callback accumulates.
pub fn search_users<F: FnOnce(Search) -> Search>(f: F) -> (r: Result<SearchRequest, Error>)
    requires
        forall|s: Search| s@ == Seq::<(Seq<char>, Seq<char>)>::empty() ==> call_requires(f, (s,)),
    ensures
        exists|s0: Search, s1: Search|
            s0@ == Seq::<(Seq<char>, Seq<char>)>::empty() && call_ensures(f, (s0,), s1) && match r {
                Ok(p) => uri_ok(search_target("users"@, crate::builder::query_view(s1@)))
                    && p.target@ == search_target("users"@, crate::builder::query_view(s1@)),
                Err(e) => !uri_ok(search_target("users"@, crate::builder::query_view(s1@)))
                    && e matches Error::InvalidUrl(_),
            },
{
    let s0 = Search::new();
    let ghost g0 = s0;
    let cfg = f(s0);
    let ghost g1 = cfg;
    let r = start_search("users", cfg);
    proof {
        assert(g0@ == Seq::<(Seq<char>, Seq<char>)>::empty() && call_ensures(f, (g0,), g1));
    }
    r
}

} // verus!
