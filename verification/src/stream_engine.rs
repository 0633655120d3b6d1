//! The client side of the stream engine's master: requests and responses
//! travel in lists, one request and one response at a time.

use vstd::prelude::*;

verus! {

/// What a call to the master can fail with on the client's side.
#[derive(Clone, Copy, Debug, PartialEq, Eq, Structural)]
pub enum Error {
    /// The master's answer does not hold the response that was asked for.
    InvalidResponse,
}

/// One entry of a list of requests or responses: the request or response,
/// if the entry holds one.
#[derive(Debug, PartialEq, Eq)]
pub struct Union<T> {
    pub inner: Option<T>,
}

/// Wraps one request into the list that the master takes.
pub fn union_request<T>(request: T) -> (requests: Vec<Union<T>>)
    ensures
        requests@.len() == 1,
        requests@[0].inner == Some(request),
{
    let mut requests: Vec<Union<T>> = Vec::new();
    requests.push(Union { inner: Some(request) });
    requests
}

/// Takes the response out of the list that the master answered with: the
/// response of the last entry. A list without entries, or whose last entry
/// holds no response, is an invalid response.
pub fn union_response<T>(responses: Vec<Union<T>>) -> (result: Result<T, Error>)
    ensures
        result == if responses@.len() > 0 && responses@.last().inner is Some {
            Ok::<T, Error>(responses@.last().inner.unwrap())
        } else {
            Err::<T, Error>(Error::InvalidResponse)
        },
{
    let mut responses = responses;
    match responses.pop() {
        Some(entry) => match entry.inner {
            Some(response) => Ok(response),
            None => Err(Error::InvalidResponse),
        },
        None => Err(Error::InvalidResponse),
    }
}

} // verus!
