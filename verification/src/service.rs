//! The plain webhook endpoint: it checks that a request body holds an event
//! and says so.

use vstd::prelude::*;
use crate::common::{bad_request, internal_error, Reply, ReplyView, Request, RequestView};
use crate::telegram::types::{update_of_payload, Update};

verus! {

/// The reply to a body that holds an event.
pub open spec fn accepted() -> ReplyView {
    ReplyView { status: 200, body: "Ok"@ }
}

/// The reply that `request` is owed: an internal error where its body
/// could not be read, a bad request where the body holds no event, and
/// `Ok` otherwise.
pub open spec fn reply_to(request: RequestView) -> ReplyView {
    match request.body {
        None => internal_error(),
        Some(payload) => match update_of_payload(payload) {
            Some(_) => accepted(),
            None => bad_request(),
        },
    }
}

/// Answers one request.
pub fn handler(req: &Request) -> (reply: Reply)
    ensures
        reply@ == reply_to(req@),
{
    let body = match &req.body {
        Some(body) => body,
        None => {
            return Reply::internal_error();
        },
    };
    match Update::parse(body.as_slice()) {
        Some(_) => Reply::new(200, "Ok"),
        None => Reply::bad_request(),
    }
}

} // verus!
