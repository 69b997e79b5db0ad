//! What a connection handler decides.
//!
//! One connection serves one request. The handler receives (it pulls lines for
//! as long as `Assembler::feed` asks for them), responds (it looks up the
//! resource at `resource_path` and sends what `respond` makes of the outcome),
//! and is done. The pulling, the lookup and the sending belong to whoever owns
//! the connection; what to do with their results is decided here.

use crate::request::request::{Request, RequestView};
use crate::response::response::{wire_bytes, Response};
use crate::response::status_code::StatusCode;
use crate::response::status_line::StatusLineView;
use vstd::prelude::*;
use vstd::string::StringExecFns;

verus! {

/// The directory under which resources are looked up.
pub const ROOT: &'static str = "./";

/// Where the resource that `request` names is looked up: the request target,
/// as it was written, behind `ROOT`.
pub open spec fn resource_path_of(request: RequestView) -> Seq<char> {
    ROOT@ + request.request_line.request_target
}

/// The bytes that answer `request` once its resource was looked up: status
/// `OK` with the resource as the body if it was found, and `NotFound` with an
/// empty body if it was not. The status line repeats the version of the
/// request.
pub open spec fn response_for(request: RequestView, resource: Option<Seq<u8>>) -> Seq<u8> {
    let version = request.request_line.version;
    match resource {
        Some(body) => wire_bytes(
            (StatusLineView { version, status_code: StatusCode::OK }).text(),
            body,
        ),
        None => wire_bytes(
            (StatusLineView { version, status_code: StatusCode::NotFound }).text(),
            Seq::empty(),
        ),
    }
}

/// The view of a resource that was looked up.
pub open spec fn found(resource: Option<Vec<u8>>) -> Option<Seq<u8>> {
    match resource {
        Some(body) => Some(body@),
        None => None,
    }
}

/// Where the resource that `request` names is looked up.
pub fn resource_path(request: &Request) -> (path: String)
    ensures
        path@ == resource_path_of(request@),
{
    String::from_str(ROOT).concat(request.request_line.request_target.as_str())
}

/// The response to `request`, given its resource, or `None` if the lookup
/// failed for whatever reason.
pub fn respond(request: &Request, resource: Option<Vec<u8>>) -> (response: Response)
    ensures
        response@ == response_for(request@, found(resource)),
{
    let version = request.request_line.version.as_str();
    match resource {
        Some(body) => Response::build(version, StatusCode::OK, body.as_slice()),
        None => {
            let nothing: Vec<u8> = Vec::new();
            Response::build(version, StatusCode::NotFound, nothing.as_slice())
        },
    }
}

} // verus!
