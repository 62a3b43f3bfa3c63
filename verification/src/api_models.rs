//! Plain request and response bodies of the surrounding HTTP services.
//! The services themselves live outside this crate; these types carry
//! the values the services exchange.

use vstd::prelude::*;

verus! {

/// An error message returned by a service.
#[derive(Debug, Clone, PartialEq)]
pub struct Error {
    pub message: String,
}

impl Error {
    pub fn new(message: String) -> (r: Error)
        ensures
            r.message == message,
    {
        Error { message }
    }
}

/// Acknowledgement of a batch of stored rates.
#[derive(Debug, Clone, PartialEq, Eq, Structural)]
pub struct PostSuccess {
    pub count: i64,
}

impl PostSuccess {
    pub fn new(count: i64) -> (r: PostSuccess)
        ensures
            r.count == count,
    {
        PostSuccess { count }
    }
}

/// Acknowledgement of a stored rate history: its identifier and when it
/// expires.
#[derive(Debug, Clone, PartialEq)]
pub struct RatesPost201Response {
    pub rate_id: String,
    pub expire: String,
}

impl RatesPost201Response {
    pub fn new(rate_id: String, expire: String) -> (r: RatesPost201Response)
        ensures
            r.rate_id == rate_id,
            r.expire == expire,
    {
        RatesPost201Response { rate_id, expire }
    }
}

/// Every answer the rate-history endpoint can give.
#[derive(Debug, PartialEq)]
pub enum RatesPostResponse {
    /// The history was stored.
    Status201(RatesPost201Response),
    /// The request was malformed.
    Status400(Error),
    /// The currency pair is not served.
    Status404(Error),
    /// The service failed internally.
    Status500(Error),
}

} // verus!
