//! The error that every failed request ends in.
use vstd::prelude::*;

verus! {

/// A failure with the HTTP status that answers it.
#[derive(Debug)]
pub struct GoogleError {
    pub message: String,
    pub status: u16,
}

/// A `GoogleError` by the text of its message.
pub struct ErrorView {
    pub message: Seq<char>,
    pub status: u16,
}

impl View for GoogleError {
    type V = ErrorView;

    open spec fn view(&self) -> ErrorView {
        ErrorView { message: self.message@, status: self.status }
    }
}

impl Clone for GoogleError {
    fn clone(&self) -> (copy: Self)
        ensures
            copy@ == self@,
    {
        GoogleError { message: self.message.clone(), status: self.status }
    }
}

/// A failure of the request itself: status 400.
pub open spec fn bad_request_view(message: Seq<char>) -> ErrorView {
    ErrorView { message, status: 400 }
}

/// A failure of the upstream service: status 502.
pub open spec fn bad_gateway_view(message: Seq<char>) -> ErrorView {
    ErrorView { message, status: 502 }
}

/// A failure of this service: status 500.
pub open spec fn internal_view(message: Seq<char>) -> ErrorView {
    ErrorView { message, status: 500 }
}

/// A failure of the cache: status 500, with the reason behind a fixed prefix.
pub open spec fn cache_view(reason: Seq<char>) -> ErrorView {
    internal_view("Cache error: "@ + reason)
}

/// A refusal for want of room: status 429.
pub open spec fn too_many_requests_view(message: Seq<char>) -> ErrorView {
    ErrorView { message, status: 429 }
}

impl GoogleError {
    pub fn bad_request(message: String) -> (error: Self)
        ensures
            error@ == bad_request_view(message@),
    {
        GoogleError { message, status: 400 }
    }

    /// The upstream service could not be reached.
    pub fn upstream(message: String) -> (error: Self)
        ensures
            error@ == bad_gateway_view(message@),
    {
        GoogleError { message, status: 502 }
    }

    /// The upstream request could not be built.
    pub fn request_build(message: String) -> (error: Self)
        ensures
            error@ == internal_view(message@),
    {
        GoogleError { message, status: 500 }
    }

    /// The upstream response broke off.
    pub fn body_read(message: String) -> (error: Self)
        ensures
            error@ == bad_gateway_view(message@),
    {
        GoogleError { message, status: 502 }
    }

    /// The upstream response is not the JSON that was expected.
    pub fn json_decode(message: String) -> (error: Self)
        ensures
            error@ == bad_gateway_view(message@),
    {
        GoogleError { message, status: 502 }
    }

    /// The response could not be written as JSON.
    pub fn json_encode(message: String) -> (error: Self)
        ensures
            error@ == internal_view(message@),
    {
        GoogleError { message, status: 500 }
    }

    /// The cache failed.
    pub fn cache(reason: &str) -> (error: Self)
        ensures
            error@ == cache_view(reason@),
    {
        let mut message = "Cache error: ".to_owned();
        message.append(reason);
        GoogleError { message, status: 500 }
    }

    pub fn too_many_requests(message: String) -> (error: Self)
        ensures
            error@ == too_many_requests_view(message@),
    {
        GoogleError { message, status: 429 }
    }
}

/// The result of a fetch by its body or its error.
pub open spec fn outcome_view(outcome: Result<Vec<u8>, GoogleError>) -> Result<Seq<u8>, ErrorView> {
    match outcome {
        Ok(body) => Ok(body@),
        Err(error) => Err(error@),
    }
}

/// A copy of the result of a fetch.
pub fn copy_outcome(outcome: &Result<Vec<u8>, GoogleError>) -> (copy: Result<
    Vec<u8>,
    GoogleError,
>)
    ensures
        outcome_view(copy) == outcome_view(*outcome),
{
    match outcome {
        Ok(body) => Ok(body.clone()),
        Err(error) => Err(error.clone()),
    }
}

/// Each kind of failure has its message and its own status.
pub proof fn failures_have_their_status(message: Seq<char>)
    ensures
        bad_request_view(message) == (ErrorView { message, status: 400 }),
        too_many_requests_view(message) == (ErrorView { message, status: 429 }),
        internal_view(message) == (ErrorView { message, status: 500 }),
        cache_view(message) == (ErrorView { message: "Cache error: "@ + message, status: 500 }),
        bad_gateway_view(message) == (ErrorView { message, status: 502 }),
{
}

/// An error and a result show what they hold.
pub proof fn errors_show_what_they_hold(error: GoogleError, body: Vec<u8>)
    ensures
        error@.message == error.message@,
        error@.status == error.status,
        outcome_view(Err(error)) == Err::<Seq<u8>, ErrorView>(error@),
        outcome_view(Ok(body)) == Ok::<Seq<u8>, ErrorView>(body@),
{
}

} // verus!
