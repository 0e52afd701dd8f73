//! Status codes and the errors the service answers with, and how a reply from
//! an upstream service turns into a value or an error.
use vstd::prelude::*;

verus! {

/// HTTP status `400 Bad Request`.
pub const BAD_REQUEST: u16 = 400;

/// HTTP status `500 Internal Server Error`.
pub const INTERNAL_SERVER_ERROR: u16 = 500;

/// HTTP status `502 Bad Gateway`.
pub const BAD_GATEWAY: u16 = 502;

/// Whether an HTTP status code belongs to the success class `200..=299`.
pub open spec fn spec_is_success(status: u16) -> bool {
    200 <= status && status < 300
}

/// Tells whether an upstream status code counts as success (`2xx`).
pub fn is_success(status: u16) -> (res: bool)
    ensures
        res == spec_is_success(status),
{
    200 <= status && status < 300
}

/// An HTTP error answer: a status code and a message.
#[derive(Clone, Debug, PartialEq, Eq)]
pub struct ApiError {
    pub status: u16,
    pub message: String,
}

impl ApiError {
    /// An error with the given status and message.
    pub fn new(status: u16, message: String) -> (res: ApiError)
        ensures
            res.status == status,
            res.message@ == message@,
    {
        ApiError { status, message }
    }
}

/// How an exchange with an upstream service ended.
#[derive(Clone, Debug, PartialEq, Eq)]
pub enum UpstreamReply<T> {
    /// The request could not be sent or no answer came; the error's text.
    Unreachable(String),
    /// The service answered with a status outside `2xx`; its body as text
    /// (empty when the body could not be read).
    Rejected { status: u16, body: String },
    /// The service answered `2xx` but the body did not decode; the error's text.
    Malformed(String),
    /// The service answered `2xx` with this decoded body.
    Received(T),
}

/// The decoded body of an upstream reply, or a `502 Bad Gateway` error whose
/// message is the transport error, the rejected body, or the decoding error.
pub fn upstream_value<T>(reply: UpstreamReply<T>) -> (res: Result<T, ApiError>)
    ensures
        match reply {
            UpstreamReply::Unreachable(m) => res matches Err(e) && e.status == BAD_GATEWAY
                && e.message@ == m@,
            UpstreamReply::Rejected { body, .. } => res matches Err(e) && e.status == BAD_GATEWAY
                && e.message@ == body@,
            UpstreamReply::Malformed(m) => res matches Err(e) && e.status == BAD_GATEWAY
                && e.message@ == m@,
            UpstreamReply::Received(v) => res == Ok::<T, ApiError>(v),
        },
{
    match reply {
        UpstreamReply::Unreachable(m) => Err(ApiError::new(BAD_GATEWAY, m)),
        UpstreamReply::Rejected { body, .. } => Err(ApiError::new(BAD_GATEWAY, body)),
        UpstreamReply::Malformed(m) => Err(ApiError::new(BAD_GATEWAY, m)),
        UpstreamReply::Received(v) => Ok(v),
    }
}

/// The error a proxy answers with when its upstream service cannot be
/// reached or its body cannot be read: `502 Bad Gateway`,
/// "`<service>` upstream error".
pub fn proxy_upstream_error(service: &str) -> (res: ApiError)
    ensures
        res.status == BAD_GATEWAY,
        res.message@ == service@ + " upstream error"@,
{
    let mut message = service.to_owned();
    message.append(" upstream error");
    ApiError::new(BAD_GATEWAY, message)
}

} // verus!
