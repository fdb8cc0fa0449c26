//! What becomes of a request that no resource answers: the failures of
//! serving, the status that each one maps to, and the response that stands
//! for a status.

use crate::codec::status_text;
use crate::dir::{status_response, ServedDir};
use crate::extract::{Encoding, IfNoneMatch};
use crate::file::{response_of, validator_of, ResourceView, ServedFile};
use crate::response::{header_views, remove_header, without, HeaderName, HeaderView, Response, ResponseView};
use crate::status::StatusCode;
use vstd::prelude::*;
use vstd::string::StrSliceExecFns;

verus! {

/// Why a request got no resource.
#[derive(Clone, Copy, Debug, PartialEq, Eq, Structural)]
pub enum ServeError {
    /// The path leads to no resource.
    NotFound,
    /// Too many requests were in flight, and this one was turned away.
    Overloaded,
    /// Serving the request took longer than it may.
    TimedOut,
    /// Any other failure.
    Internal,
}

impl ServeError {
    /// The number of the status that the failure is answered with.
    pub open spec fn code(self) -> u16 {
        match self {
            ServeError::NotFound => 404,
            ServeError::Overloaded => 503,
            ServeError::TimedOut => 408,
            ServeError::Internal => 500,
        }
    }

    /// The status that the failure is answered with.
    pub fn status(self) -> (status: StatusCode)
        ensures
            status@ == self.code(),
    {
        match self {
            ServeError::NotFound => StatusCode::not_found(),
            ServeError::Overloaded => StatusCode::service_unavailable(),
            ServeError::TimedOut => StatusCode::request_timeout(),
            ServeError::Internal => StatusCode::internal_server_error(),
        }
    }
}

/// The response that stands for a status, given the page for it if there is
/// one. With a page it is the full, unencoded response of that page; without
/// one its body is the text of the status and it has no headers. Either way
/// it carries the status, and neither `Accept-Encoding` nor `Cache-Control`:
/// those would describe the page, not what was asked for.
pub open spec fn status_page_response(page: Option<ResourceView>, status: u16) -> ResponseView {
    let (headers, body) = match page {
        Some(r) => {
            let full = response_of(r, Encoding::Identity, None);
            (full.headers, full.body)
        },
        None => (Seq::<HeaderView>::empty(), vstd::utf8::encode_utf8(status_text(status))),
    };
    ResponseView {
        status,
        headers: without(without(headers, HeaderName::AcceptEncoding), HeaderName::CacheControl),
        body,
    }
}

/// The view of an optional resource.
pub open spec fn page_view(page: Option<&ServedFile>) -> Option<ResourceView> {
    match page {
        Some(file) => Some(file@),
        None => None,
    }
}

/// Builds the response that stands for `status` from its page, if it has
/// one.
pub fn status_code_page(page: Option<&ServedFile>, status: StatusCode) -> (response: Response)
    ensures
        response@ == status_page_response(page_view(page), status@),
{
    let mut response = match page {
        Some(file) => file.to_response(Encoding::Identity, None),
        None => Response {
            status: StatusCode::ok(),
            headers: Vec::new(),
            body: status.to_text().as_str().as_bytes_vec(),
        },
    };
    let ghost first = response@;
    assert(first.headers == header_views(response.headers@));
    assert(page is None ==> first.headers == Seq::<HeaderView>::empty());
    response.status = status;
    remove_header(&mut response.headers, HeaderName::AcceptEncoding);
    remove_header(&mut response.headers, HeaderName::CacheControl);
    assert(response@.headers == without(
        without(first.headers, HeaderName::AcceptEncoding),
        HeaderName::CacheControl,
    ));
    response
}

/// Answers a request that got no resource with the response that stands for
/// the status of the failure.
pub fn handle_middleware_error(dir: &ServedDir, error: ServeError) -> (response: Response)
    ensures
        response@ == status_response(dir@, error.code()),
{
    dir.get_status(error.status())
}

/// Answers a request with the response of the resource it was routed to.
pub fn serve_file(
    encoding: Encoding,
    if_none_match: Option<IfNoneMatch>,
    file: &ServedFile,
) -> (response: Response)
    ensures
        response@ == response_of(file@, encoding, validator_of(if_none_match)),
{
    file.to_response(encoding, if_none_match)
}

} // verus!
