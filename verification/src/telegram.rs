//! The Telegram side: the event schema it delivers and the messages sent
//! back to it.

pub mod service;
pub mod types;

use vstd::prelude::*;
use self::service::{bot_address, bot_endpoint, send_message_call, send_message_to, Outbound};

pub use self::service::TelegramService;
pub use self::types::{Chat, Message, MessageEntity, Update};

verus! {

/// A client of the bot API.
pub struct Telegram {
    path: String,
}

impl Telegram {
    /// The address of the bot that this client talks to.
    pub closed spec fn address(&self) -> Seq<char> {
        self.path@
    }

    /// A client for the bot with the key `api_key`.
    pub fn new(api_key: &str) -> (r: Self)
        ensures
            r.address() == bot_address(api_key@),
    {
        Telegram { path: bot_endpoint(api_key) }
    }

    /// The call that sends `message` to the chat `chat_id`.
    pub fn send_message(&self, chat_id: i32, message: &str) -> (r: Outbound)
        ensures
            r@ == send_message_call(self.address(), chat_id as int, message@),
    {
        send_message_to(self.path.as_str(), chat_id, message)
    }
}

} // verus!
