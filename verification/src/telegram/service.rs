//! Messages to a chat, as the requests that the bot API expects. Sending
//! them is the caller's part.

use vstd::prelude::*;
use vstd::string::StringExecFns;

verus! {

/// The body of a `sendMessage` call: a text for a chat.
#[derive(Debug)]
pub struct SendMessage {
    pub chat_id: i32,
    pub text: String,
}

/// A call of the bot API: `message`, to be posted as JSON to `url`.
#[derive(Debug)]
pub struct Outbound {
    pub url: String,
    pub message: SendMessage,
}

pub struct SendMessageView {
    pub chat_id: int,
    pub text: Seq<char>,
}

pub struct OutboundView {
    pub url: Seq<char>,
    pub message: SendMessageView,
}

impl View for SendMessage {
    type V = SendMessageView;

    open spec fn view(&self) -> SendMessageView {
        SendMessageView { chat_id: self.chat_id as int, text: self.text@ }
    }
}

impl View for Outbound {
    type V = OutboundView;

    open spec fn view(&self) -> OutboundView {
        OutboundView { url: self.url@, message: self.message@ }
    }
}

/// The address of the bot with the key `api_key`.
pub open spec fn bot_address(api_key: Seq<char>) -> Seq<char> {
    "https://api.telegram.org/bot"@ + api_key
}

/// The call that sends `message` to the chat `chat_id` through the bot at
/// `address`.
pub open spec fn send_message_call(
    address: Seq<char>,
    chat_id: int,
    message: Seq<char>,
) -> OutboundView {
    OutboundView {
        url: address + "/sendMessage"@,
        message: SendMessageView { chat_id, text: message },
    }
}

/// The address of the bot with the key `api_key`.
pub fn bot_endpoint(api_key: &str) -> (r: String)
    ensures
        r@ == bot_address(api_key@),
{
    let mut path = String::from_str("https://api.telegram.org/bot");
    path.append(api_key);
    path
}

/// The call that sends `message` to the chat `chat_id` through the bot at
/// `address`.
pub fn send_message_to(address: &str, chat_id: i32, message: &str) -> (r: Outbound)
    ensures
        r@ == send_message_call(address@, chat_id as int, message@),
{
    let mut url = String::from_str(address);
    url.append("/sendMessage");
    Outbound { url, message: SendMessage { chat_id, text: String::from_str(message) } }
}

/// A client of the bot API.
pub struct TelegramService {
    path: String,
}

impl TelegramService {
    /// The address of the bot that this client talks to.
    pub closed spec fn address(&self) -> Seq<char> {
        self.path@
    }

    /// A client for the bot with the key `api_key`.
    pub fn new(api_key: &str) -> (r: Self)
        ensures
            r.address() == bot_address(api_key@),
    {
        TelegramService { path: bot_endpoint(api_key) }
    }

    /// The call that sends `message` to the chat `chat_id`.
    pub fn send_message(&self, chat_id: i32, message: &str) -> (r: Outbound)
        ensures
            r@ == send_message_call(self.address(), chat_id as int, message@),
    {
        send_message_to(self.path.as_str(), chat_id, message)
    }
}

} // verus!
