//! Terminal outcomes of a request and their HTTP responses.
//!
//! Every response, success or failure, carries the three CORS headers, so
//! that browser clients can read it.

use vstd::prelude::*;

verus! {

/// The ways a request can fail. Each is terminal: nothing is retried.
///
/// `RateLimited` is the documented admission policy for submissions that
/// arrive while the rate-limit window is exhausted: they are refused
/// outright rather than queued.
#[derive(Clone, Copy, Debug, PartialEq, Eq, Structural)]
pub enum Error {
    /// The request body exceeded the size cap.
    PayloadTooLarge,
    /// The body was not a JSON object of strings with the required fields.
    InvalidSubmission,
    /// The base branch could not be resolved.
    UpstreamUnavailable,
    /// The topic branch could not be created.
    BranchCreateFailed,
    /// The data file could not be created or updated (including an
    /// optimistic-concurrency rejection by the remote side).
    WriteFailed,
    /// The pull request could not be opened.
    PullRequestFailed,
    /// Refused by the global rate limiter.
    RateLimited,
}

/// An HTTP response, reduced to what the pipeline decides: the status code
/// and the body. The CORS headers of `cors_headers` accompany every
/// response.
pub struct HttpResponse {
    pub status: u16,
    pub body: String,
}

/// The status code each failure maps to.
pub open spec fn status_for(e: Error) -> u16 {
    match e {
        Error::PayloadTooLarge => 400,
        Error::InvalidSubmission => 400,
        Error::UpstreamUnavailable => 502,
        Error::BranchCreateFailed => 502,
        Error::WriteFailed => 502,
        Error::PullRequestFailed => 502,
        Error::RateLimited => 429,
    }
}

/// The human-readable message each failure maps to. No internal detail is
/// exposed.
pub open spec fn message_for(e: Error) -> Seq<char> {
    match e {
        Error::PayloadTooLarge => "Comment size limit exceeded"@,
        Error::InvalidSubmission => "Invalid JSON"@,
        Error::UpstreamUnavailable => "Could not get master ref"@,
        Error::BranchCreateFailed => "Could not create branch"@,
        Error::WriteFailed => "Could not write comment file"@,
        Error::PullRequestFailed => "Could not create PR"@,
        Error::RateLimited => "Too many comments, try again later"@,
    }
}

/// The response for a failed request.
pub fn response_for_error(e: Error) -> (r: HttpResponse)
    ensures
        r.status == status_for(e),
        r.body@ == message_for(e),
{
    match e {
        Error::PayloadTooLarge => HttpResponse {
            status: 400,
            body: "Comment size limit exceeded".to_owned(),
        },
        Error::InvalidSubmission => HttpResponse { status: 400, body: "Invalid JSON".to_owned() },
        Error::UpstreamUnavailable => HttpResponse {
            status: 502,
            body: "Could not get master ref".to_owned(),
        },
        Error::BranchCreateFailed => HttpResponse {
            status: 502,
            body: "Could not create branch".to_owned(),
        },
        Error::WriteFailed => HttpResponse {
            status: 502,
            body: "Could not write comment file".to_owned(),
        },
        Error::PullRequestFailed => HttpResponse {
            status: 502,
            body: "Could not create PR".to_owned(),
        },
        Error::RateLimited => HttpResponse {
            status: 429,
            body: "Too many comments, try again later".to_owned(),
        },
    }
}

/// The response for a completed request: the pull request was opened.
pub fn success_response() -> (r: HttpResponse)
    ensures
        r.status == 201,
        r.body@ == "That worked, now goeth forth"@,
{
    HttpResponse { status: 201, body: "That worked, now goeth forth".to_owned() }
}

/// The response to a CORS preflight request: no content, no body.
pub fn preflight_response() -> (r: HttpResponse)
    ensures
        r.status == 204,
        r.body@ == Seq::<char>::empty(),
{
    HttpResponse { status: 204, body: String::new() }
}

/// The three CORS headers that every response carries.
pub fn cors_headers() -> (h: Vec<(String, String)>)
    ensures
        h@.len() == 3,
        h@[0].0@ == "Access-Control-Allow-Methods"@ && h@[0].1@ == "OPTIONS, POST"@,
        h@[1].0@ == "Access-Control-Allow-Origin"@ && h@[1].1@ == "*"@,
        h@[2].0@ == "Access-Control-Allow-Headers"@ && h@[2].1@ == "content-type"@,
{
    let mut h: Vec<(String, String)> = Vec::new();
    h.push(("Access-Control-Allow-Methods".to_owned(), "OPTIONS, POST".to_owned()));
    h.push(("Access-Control-Allow-Origin".to_owned(), "*".to_owned()));
    h.push(("Access-Control-Allow-Headers".to_owned(), "content-type".to_owned()));
    h
}

} // verus!
