//! Client core for a REST-style media-catalog service: a query-string
//! builder, request-target construction, and the response
//! decode/error-classification pipeline shared by a blocking and a
//! deferred (asynchronous-style) backend.
use vstd::prelude::*;

pub use blocking::{Client, Transport};
pub use builder::Search;
pub use error::{Error, HttpResponse, Outcome};
pub use model::{Resource, Response};

pub mod blocking;
pub mod builder;
pub mod deferred;
pub mod error;
pub mod json;
pub mod model;
pub mod pct;
pub mod request;

verus! {

/// Root of the service's edge API, under which every request target is built.
pub const API_URL: &'static str = "https://kitsu.io/api/edge";

} // verus!
