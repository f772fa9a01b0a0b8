//! Helpers for building the client's HTTP requests.

use vstd::prelude::*;
use crate::text::{join_str, decimal, decimal_string};
use crate::client::types::{Error, ErrorInfo};

verus! {

/// The offset of page `p` when pages hold `count` items: `p * count`, and
/// zero for the first page.
pub open spec fn page_offset(count: nat, p: nat) -> nat {
    if p > 0 {
        p * count
    } else {
        0
    }
}

/// The pagination query `limit={count}&offset={offset}`.
pub open spec fn limit_query(count: nat, p: nat) -> Seq<char> {
    "limit="@ + decimal(count) + "&offset="@ + decimal(page_offset(count, p))
}

/// Set limit for pagination.
pub fn limit(count: u32, p: u32) -> (q: String)
    requires
        page_offset(count as nat, p as nat) <= u32::MAX,
    ensures
        q@ == limit_query(count as nat, p as nat),
{
    let offset: u32 = if p > 0 {
        proof {
            assert(p * count == page_offset(count as nat, p as nat));
        }
        p * count
    } else {
        0
    };
    let mut q = String::from_str("limit=");
    q.append(decimal_string(count).as_str());
    q.append("&offset=");
    q.append(decimal_string(offset).as_str());
    q
}

/// The HTTP methods the client sends.
#[derive(Clone, Copy, Debug, PartialEq, Eq, Structural)]
pub enum Method {
    Get,
    Post,
    Put,
    Delete,
}

/// Whether a request with this method carries a JSON body.
pub fn allows_body(method: Method) -> (b: bool)
    ensures
        b == (method == Method::Post || method == Method::Put),
{
    match method {
        Method::Post => true,
        Method::Put => true,
        _ => false,
    }
}

/// The address of an API path: the API's base address followed by the path.
pub fn request_url(base: &str, path: &str) -> (url: String)
    ensures
        url@ == base@ + path@,
{
    join_str(base, path)
}

/// What the client does once a request was sent.
pub enum ResponseStep {
    /// The server answered with success: read the body as the expected value.
    ReadBody,
    /// The server refused the request's content: read the body as the
    /// server's description of what was wrong.
    ReadErrorInfo,
    /// The request failed with this error.
    Fail(Error),
}

/// What an unsuccessful status means.
pub open spec fn status_step(status: u16) -> ResponseStep {
    if status == 401 {
        ResponseStep::Fail(Error::Unauthorized)
    } else if status == 403 {
        ResponseStep::Fail(Error::Forbidden)
    } else if status == 404 {
        ResponseStep::Fail(Error::NotFound)
    } else if status == 500 {
        ResponseStep::Fail(Error::InternalServerError)
    } else if status == 422 {
        ResponseStep::ReadErrorInfo
    } else {
        ResponseStep::Fail(Error::RequestError)
    }
}

/// Decides what follows a request: `None` when it could not be sent, else
/// whether the status was a success and the status itself.
pub fn response_step(response: Option<(bool, u16)>) -> (step: ResponseStep)
    ensures
        step == (match response {
            None => ResponseStep::Fail(Error::RequestError),
            Some((true, _)) => ResponseStep::ReadBody,
            Some((false, status)) => status_step(status),
        }),
{
    match response {
        None => ResponseStep::Fail(Error::RequestError),
        Some((ok, status)) => {
            if ok {
                ResponseStep::ReadBody
            } else if status == 401 {
                ResponseStep::Fail(Error::Unauthorized)
            } else if status == 403 {
                ResponseStep::Fail(Error::Forbidden)
            } else if status == 404 {
                ResponseStep::Fail(Error::NotFound)
            } else if status == 500 {
                ResponseStep::Fail(Error::InternalServerError)
            } else if status == 422 {
                ResponseStep::ReadErrorInfo
            } else {
                ResponseStep::Fail(Error::RequestError)
            }
        },
    }
}

/// The result of a successful request, given its body read as the expected
/// value (`None` when it could not be).
pub fn body_result<T>(parsed: Option<T>) -> (r: Result<T, Error>)
    ensures
        r == (match parsed {
            Some(t) => Ok(t),
            None => Err(Error::DeserializeError),
        }),
{
    match parsed {
        Some(t) => Ok(t),
        None => Err(Error::DeserializeError),
    }
}

/// The error of a refused request, given its body read as the server's
/// description (`None` when it could not be).
pub fn unprocessable(parsed: Option<ErrorInfo>) -> (e: Error)
    ensures
        e == (match parsed {
            Some(info) => Error::UnprocessableEntity(info),
            None => Error::DeserializeError,
        }),
{
    match parsed {
        Some(info) => Error::UnprocessableEntity(info),
        None => Error::DeserializeError,
    }
}

/// The offset of page `p` is `p * count`, and zero for the first page; the
/// statuses 401, 403, 404 and 500 fail with their own errors, 422 reads the
/// server's description, and every other unsuccessful status is a request
/// error.
pub proof fn lemma_paging_and_statuses(count: nat, p: nat, status: u16)
    ensures
        page_offset(count, 0) == 0,
        p > 0 ==> page_offset(count, p) == p * count,
        status_step(401) == ResponseStep::Fail(Error::Unauthorized),
        status_step(403) == ResponseStep::Fail(Error::Forbidden),
        status_step(404) == ResponseStep::Fail(Error::NotFound),
        status_step(500) == ResponseStep::Fail(Error::InternalServerError),
        status_step(422) == ResponseStep::ReadErrorInfo,
        status != 401 && status != 403 && status != 404 && status != 500 && status != 422
            ==> status_step(status) == ResponseStep::Fail(Error::RequestError),
{
}

} // verus!
