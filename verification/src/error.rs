//! The closed error taxonomy and the transport outcome it classifies.
//! Every error is terminal: nothing here retries, logs, or swallows.
use vstd::prelude::*;

verus! {

/// A completed HTTP exchange: the status code and the full body.
#[derive(Debug, Clone, PartialEq)]
pub struct HttpResponse {
    pub status: u16,
    pub body: Vec<u8>,
}

/// What the transport produced for one request: a completed exchange,
/// or a failure (connection, timeout, I/O) before one, with its
/// diagnostic.
#[derive(Debug, Clone, PartialEq)]
pub enum Outcome {
    Failure(String),
    Completed(HttpResponse),
}

/// One error per stage of a call: URL construction, the exchange
/// itself, the status evaluation, or the body decode. HTTP errors
/// carry the full response for the caller to inspect.
#[derive(Debug, PartialEq)]
pub enum Error {
    /// The request target did not parse as an absolute URL; carries
    /// the parse diagnostic. No request is issued.
    InvalidUrl(String),
    /// The transport failed to complete the exchange; carries the
    /// transport's diagnostic.
    Transport(String),
    /// HTTP 400.
    BadRequest(HttpResponse),
    /// HTTP 401.
    Unauthorized(HttpResponse),
    /// Any other non-200 status.
    UnexpectedStatus(HttpResponse),
    /// The 200 body failed to parse as JSON or to match the expected
    /// envelope shape; carries the diagnostic.
    Decode(String),
}

} // verus!
