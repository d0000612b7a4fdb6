//! The webhook endpoint that acknowledges each event to its chat.
//!
//! The endpoint decides; the caller acts. For each request it names the
//! reply and, where an event came in, the message to send to the chat
//! before the reply goes out.

use vstd::prelude::*;
use vstd::string::StringExecFns;
use crate::common::{
    bad_request, healthy, internal_error, is_health_check, Reply, ReplyView, Request, RequestView,
};
use crate::service::accepted;
use crate::telegram::service::{SendMessage, SendMessageView};
use crate::telegram::types::{update_of_payload, Update};

verus! {

/// What a request leads to: a reply, and before it a message to a chat
/// where there is something to acknowledge.
#[derive(Debug)]
pub struct Handled {
    pub send: Option<SendMessage>,
    pub reply: Reply,
}

pub struct HandledView {
    pub send: Option<SendMessageView>,
    pub reply: ReplyView,
}

impl View for Handled {
    type V = HandledView;

    open spec fn view(&self) -> HandledView {
        HandledView {
            send: match self.send {
                Some(message) => Some(message@),
                None => None,
            },
            reply: self.reply@,
        }
    }
}

/// What a webhook delivery leads to. An event is acknowledged to its chat
/// with the text `ack` and answered with `Ok`. Nothing is sent for a body
/// that could not be read, which is an internal error, nor for one that
/// holds no event, which is a bad request.
pub open spec fn webhook_outcome(request: RequestView) -> HandledView {
    match request.body {
        None => HandledView { send: None, reply: internal_error() },
        Some(payload) => match update_of_payload(payload) {
            Some(update) => HandledView {
                send: Some(SendMessageView { chat_id: update.message.chat.id, text: "ack"@ }),
                reply: accepted(),
            },
            None => HandledView { send: None, reply: bad_request() },
        },
    }
}

/// What a request leads to: the health check is answered at once, anything
/// else is a webhook delivery.
pub open spec fn outcome(request: RequestView) -> HandledView {
    if is_health_check(request) {
        HandledView { send: None, reply: healthy() }
    } else {
        webhook_outcome(request)
    }
}

/// Decides what to do with one request.
pub fn handler(req: &Request) -> (r: Handled)
    ensures
        r@ == outcome(req@),
{
    if req.is_health_check() {
        Handled { send: None, reply: Reply::healthy() }
    } else {
        handle_webhook(req)
    }
}

/// Decides what to do with one webhook delivery.
pub fn handle_webhook(req: &Request) -> (r: Handled)
    ensures
        r@ == webhook_outcome(req@),
{
    let body = match &req.body {
        Some(body) => body,
        None => {
            return Handled { send: None, reply: Reply::internal_error() };
        },
    };
    match Update::parse(body.as_slice()) {
        Some(update) => Handled {
            send: Some(SendMessage { chat_id: update.message.chat.id, text: String::from_str("ack") }),
            reply: Reply::new(200, "Ok"),
        },
        None => Handled { send: None, reply: Reply::bad_request() },
    }
}

} // verus!
