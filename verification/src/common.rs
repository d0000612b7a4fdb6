//! The boundary to the HTTP transport: requests and replies as plain
//! values, the interface of a service, and the health check in front of it.

use vstd::prelude::*;
use vstd::string::StringExecFns;
use crate::text::same_text;

verus! {

/// An HTTP request, as far as a service reads it.
#[derive(Debug)]
pub struct Request {
    /// The method, in upper case.
    pub method: String,
    /// The path of the request's URI.
    pub path: String,
    /// The body, or `None` where the transport failed to read it.
    pub body: Option<Vec<u8>>,
}

/// An HTTP response: a status code and a text body.
#[derive(Debug)]
pub struct Reply {
    pub status: u16,
    pub body: String,
}

pub struct RequestView {
    pub method: Seq<char>,
    pub path: Seq<char>,
    pub body: Option<Seq<u8>>,
}

pub struct ReplyView {
    pub status: int,
    pub body: Seq<char>,
}

impl View for Request {
    type V = RequestView;

    open spec fn view(&self) -> RequestView {
        RequestView {
            method: self.method@,
            path: self.path@,
            body: match self.body {
                Some(bytes) => Some(bytes@),
                None => None,
            },
        }
    }
}

impl View for Reply {
    type V = ReplyView;

    open spec fn view(&self) -> ReplyView {
        ReplyView { status: self.status as int, body: self.body@ }
    }
}

/// The reply to a health check.
pub open spec fn healthy() -> ReplyView {
    ReplyView { status: 200, body: "healthy"@ }
}

/// The reply to a body that is not the expected JSON.
pub open spec fn bad_request() -> ReplyView {
    ReplyView { status: 400, body: "Failed to parse input"@ }
}

/// The reply where the transport or the storage failed.
pub open spec fn internal_error() -> ReplyView {
    ReplyView { status: 500, body: "Internal error"@ }
}

/// Whether a request is the health check: a `GET` of `/health`.
pub open spec fn is_health_check(request: RequestView) -> bool {
    request.method == "GET"@ && request.path == "/health"@
}

impl Request {
    /// A request whose body was read in full.
    pub fn new(method: &str, path: &str, body: Vec<u8>) -> (r: Request)
        ensures
            r@ == (RequestView { method: method@, path: path@, body: Some(body@) }),
    {
        Request { method: String::from_str(method), path: String::from_str(path), body: Some(body) }
    }

    /// Whether this is the health check.
    pub fn is_health_check(&self) -> (r: bool)
        ensures
            r == is_health_check(self@),
    {
        same_text(self.method.as_str(), "GET") && same_text(self.path.as_str(), "/health")
    }
}

impl Reply {
    /// A reply with the given status and body.
    pub fn new(status: u16, body: &str) -> (r: Reply)
        ensures
            r@ == (ReplyView { status: status as int, body: body@ }),
    {
        Reply { status, body: String::from_str(body) }
    }

    /// Status 200 with the body `healthy`.
    pub fn healthy() -> (r: Reply)
        ensures
            r@ == healthy(),
    {
        Reply::new(200, "healthy")
    }

    /// Status 400 with the body `Failed to parse input`.
    pub fn bad_request() -> (r: Reply)
        ensures
            r@ == bad_request(),
    {
        Reply::new(400, "Failed to parse input")
    }

    /// Status 500 with the body `Internal error`.
    pub fn internal_error() -> (r: Reply)
        ensures
            r@ == internal_error(),
    {
        Reply::new(500, "Internal error")
    }
}

/// A service that answers requests.
pub trait Server: Sized {
    /// Whether the service is in a state in which it can serve.
    spec fn ready(&self) -> bool;

    /// Whether a service in state `self` may answer `request` with `reply`
    /// and be in state `after` then.
    spec fn handles(&self, request: RequestView, reply: ReplyView, after: &Self) -> bool;

    /// Answers one request.
    fn serve(&mut self, request: &Request) -> (reply: Reply)
        requires
            old(self).ready(),
        ensures
            final(self).ready(),
            old(self).handles(request@, reply@, final(self)),
    ;
}

/// A service with a health check in front of it.
pub struct CommonServer<T: Server> {
    server: T,
}

impl<T: Server> CommonServer<T> {
    /// The service behind the health check.
    pub closed spec fn inner(&self) -> T {
        self.server
    }

    /// Puts the health check in front of `server`.
    pub fn new(server: T) -> (r: Self)
        ensures
            r.inner() == server,
    {
        Self { server }
    }
}

impl<T: Server> Server for CommonServer<T> {
    open spec fn ready(&self) -> bool {
        self.inner().ready()
    }

    /// The health check is answered here, and leaves the service behind it
    /// untouched. Every other request is handed on to that service.
    open spec fn handles(&self, request: RequestView, reply: ReplyView, after: &Self) -> bool {
        if is_health_check(request) {
            reply == healthy() && after.inner() == self.inner()
        } else {
            self.inner().handles(request, reply, &after.inner())
        }
    }

    fn serve(&mut self, request: &Request) -> (reply: Reply) {
        if request.is_health_check() {
            Reply::healthy()
        } else {
            self.server.serve(request)
        }
    }
}

} // verus!
