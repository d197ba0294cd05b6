//! The blocking backend: one call performs one exchange on the
//! calling thread, through a caller-supplied transport, and returns
//! the decoded result directly.
use crate::builder::Search;
use crate::error::{Error, Outcome};
use crate::model::{Resource, Response};
use crate::request::{
    build_get_target, build_search_target, check_uri, conclude_many, conclude_one, get_dispatched,
    get_target, many_result_ok, one_result_ok, search_dispatched, search_target, uri_ok,
};
use vstd::prelude::*;

verus! {

/// The transport collaborator: performs one HTTP GET against an
/// absolute URL and yields the status and full body, or a failure.
/// Nothing is assumed of it: the pipeline's contracts hold for every
/// outcome it may produce.
pub trait Transport {
    fn get(&mut self, url: &str) -> Outcome;
}

/// The blocking client, owning its transport handle.
pub struct Client<T: Transport> {
    pub transport: T,
}

impl<T: Transport> Client<T> {
    pub fn new(transport: T) -> (r: Client<T>)
        ensures
            r.transport == transport,
    {
        Client { transport }
    }

    /// Dispatches a by-id request: builds `<base>/<path>/<id>`, checks
    /// it, and only then performs the exchange and decodes one
    /// resource.
    pub fn get_resource(&mut self, path: &str, id: u64) -> (r: Result<Response<Resource>, Error>)
        ensures
            get_dispatched(path@, id as nat, r),
    {
        let target = build_get_target(path, id);
        match check_uri(target.as_str()) {
            Some(diag) => Err(Error::InvalidUrl(diag)),
            None => {
                let o = self.transport.get(target.as_str());
                let r = conclude_one(o);
                proof {
                    assert(one_result_ok(o, r));
                }
                r
            },
        }
    }

    /// Dispatches a search: serializes the filter set, builds
    /// `<base>/<path>?<query>`, checks it, and only then performs the
    /// exchange and decodes the resource sequence.
    pub fn search_resource(&mut self, path: &str, search: Search) -> (r: Result<
        Response<Vec<Resource>>,
        Error,
    >)
        ensures
            search_dispatched(path@, search@, r),
    {
        let qs = search.query_string();
        let target = build_search_target(path, qs.as_str());
        match check_uri(target.as_str()) {
            Some(diag) => Err(Error::InvalidUrl(diag)),
            None => {
                let o = self.transport.get(target.as_str());
                let r = conclude_many(o);
                proof {
                    assert(many_result_ok(o, r));
                }
                r
            },
        }
    }

    /// Gets an anime by its id.
    pub fn get_anime(&mut self, id: u64) -> (r: Result<Response<Resource>, Error>)
        ensures
            get_dispatched("anime"@, id as nat, r),
    {
        self.get_resource("anime", id)
    }

    /// Gets a character by its id.
    pub fn get_character(&mut self, id: u64) -> (r: Result<Response<Resource>, Error>)
        ensures
            get_dispatched("characters"@, id as nat, r),
    {
        self.get_resource("characters", id)
    }

    /// Gets a manga by its id.
    pub fn get_manga(&mut self, id: u64) -> (r: Result<Response<Resource>, Error>)
        ensures
            get_dispatched("manga"@, id as nat, r),
    {
        self.get_resource("manga", id)
    }

    /// Gets a producer by its id.
    pub fn get_producer(&mut self, id: u64) -> (r: Result<Response<Resource>, Error>)
        ensures
            get_dispatched("producers"@, id as nat, r),
    {
        self.get_resource("producers", id)
    }

    /// Gets a user by their id.
    pub fn get_user(&mut self, id: u64) -> (r: Result<Response<Resource>, Error>)
        ensures
            get_dispatched("users"@, id as nat, r),
    {
        self.get_resource("users", id)
    }

    /// Searches for anime with the filters the callback accumulates on
    /// a fresh filter set.
    pub fn search_anime<F: FnOnce(Search) -> Search>(&mut self, f: F) -> (r: Result<
        Response<Vec<Resource>>,
        Error,
    >)
        requires
            forall|s: Search| s@ == Seq::<(Seq<char>, Seq<char>)>::empty() ==> call_requires(
                f,
                (s,),
            ),
        ensures
            exists|s0: Search, s1: Search|
                s0@ == Seq::<(Seq<char>, Seq<char>)>::empty() && call_ensures(f, (s0,), s1)
                    && search_dispatched("anime"@, s1@, r),
    {
        let s0 = Search::new();
        let ghost g0 = s0;
        let cfg = f(s0);
        let ghost g1 = cfg;
        let r = self.search_resource("anime", cfg);
        proof {
            assert(g0@ == Seq::<(Seq<char>, Seq<char>)>::empty() && call_ensures(f, (g0,), g1)
                && search_dispatched("anime"@, g1@, r));
        }
        r
    }

    /// Searches for characters with the filters the callback
    /// accumulates on a fresh filter set.
    pub fn search_characters<F: FnOnce(Search) -> Search>(&mut self, f: F) -> (r: Result<
        Response<Vec<Resource>>,
        Error,
    >)
        requires
            forall|s: Search| s@ == Seq::<(Seq<char>, Seq<char>)>::empty() ==> call_requires(
                f,
                (s,),
            ),
        ensures
            exists|s0: Search, s1: Search|
                s0@ == Seq::<(Seq<char>, Seq<char>)>::empty() && call_ensures(f, (s0,), s1)
                    && search_dispatched("characters"@, s1@, r),
    {
        let s0 = Search::new();
        let ghost g0 = s0;
        let cfg = f(s0);
        let ghost g1 = cfg;
        let r = self.search_resource("characters", cfg);
        proof {
            assert(g0@ == Seq::<(Seq<char>, Seq<char>)>::empty() && call_ensures(f, (g0,), g1)
                && search_dispatched("characters"@, g1@, r));
        }
        r
    }

    /// Searches for manga with the filters the callback accumulates on
    /// a fresh filter set.
    pub fn search_manga<F: FnOnce(Search) -> Search>(&mut self, f: F) -> (r: Result<
        Response<Vec<Resource>>,
        Error,
    >)
        requires
            forall|s: Search| s@ == Seq::<(Seq<char>, Seq<char>)>::empty() ==> call_requires(
                f,
                (s,),
            ),
        ensures
            exists|s0: Search, s1: Search|
                s0@ == Seq::<(Seq<char>, Seq<char>)>::empty() && call_ensures(f, (s0,), s1)
                    && search_dispatched("manga"@, s1@, r),
    {
        let s0 = Search::new();
        let ghost g0 = s0;
        let cfg = f(s0);
        let ghost g1 = cfg;
        let r = self.search_resource("manga", cfg);
        proof {
            assert(g0@ == Seq::<(Seq<char>, Seq<char>)>::empty() && call_ensures(f, (g0,), g1)
                && search_dispatched("manga"@, g1@, r));
        }
        r
    }

    /// Searches for users with the filters the callback accumulates on
    /// a fresh filter set.
    pub fn search_users<F: FnOnce(Search) -> Search>(&mut self, f: F) -> (r: Result<
        Response<Vec<Resource>>,
        Error,
    >)
        requires
            forall|s: Search| s@ == Seq::<(Seq<char>, Seq<char>)>::empty() ==> call_requires(
                f,
                (s,),
            ),
        ensures
            exists|s0: Search, s1: Search|
                s0@ == Seq::<(Seq<char>, Seq<char>)>::empty() && call_ensures(f, (s0,), s1)
                    && search_dispatched("users"@, s1@, r),
    {
        let s0 = Search::new();
        let ghost g0 = s0;
        let cfg = f(s0);
        let ghost g1 = cfg;
        let r = self.search_resource("users", cfg);
        proof {
            assert(g0@ == Seq::<(Seq<char>, Seq<char>)>::empty() && call_ensures(f, (g0,), g1)
                && search_dispatched("users"@, g1@, r));
        }
        r
    }
}

} // verus!
