use scheduler::telegram::service::{bot_endpoint, send_message_to};
use scheduler::telegram::{Telegram, TelegramService};

#[test]
fn bot_endpoint_appends_the_key() {
    assert_eq!(bot_endpoint("123:abc"), "https://api.telegram.org/bot123:abc");
    assert_eq!(bot_endpoint(""), "https://api.telegram.org/bot");
}

#[test]
fn send_message_to_builds_the_call() {
    let call = send_message_to("https://api.telegram.org/botKEY", -3, "hello");

    assert_eq!(call.url, "https://api.telegram.org/botKEY/sendMessage");
    assert_eq!(call.message.chat_id, -3);
    assert_eq!(call.message.text, "hello");
}

#[test]
fn telegram_service_addresses_its_bot() {
    let client = TelegramService::new("KEY");

    let call = client.send_message(3, "ack");

    assert_eq!(call.url, "https://api.telegram.org/botKEY/sendMessage");
    assert_eq!(call.message.chat_id, 3);
    assert_eq!(call.message.text, "ack");
}

#[test]
fn telegram_addresses_its_bot() {
    let client = Telegram::new("KEY");

    let call = client.send_message(3, "");

    assert_eq!(call.url, "https://api.telegram.org/botKEY/sendMessage");
    assert_eq!(call.message.chat_id, 3);
    assert_eq!(call.message.text, "");
}
