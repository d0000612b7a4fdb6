use scheduler::common::Request;
use scheduler::service;
use scheduler::webhook::{handle_webhook, handler};

fn update_body() -> Vec<u8> {
    "{\"update_id\":1,\"message\":{\"message_id\":2,\"chat\":{\"id\":3},\"text\":\"message\",\"entities\":null}}"
        .as_bytes()
        .to_vec()
}

#[test]
fn should_return_400_if_no_input() {
    let request = Request::new("GET", "/", "".as_bytes().to_vec());

    let result = handler(&request);

    assert_eq!(result.reply.status, 400);
    assert_eq!(result.reply.body, "Failed to parse input");
    assert!(result.send.is_none());
}

#[test]
fn should_return_200_for_health() {
    let request = Request::new("GET", "/health", "".as_bytes().to_vec());

    let result = handler(&request);

    assert_eq!(result.reply.status, 200);
    assert_eq!(result.reply.body, "healthy");
    assert!(result.send.is_none());
}

#[test]
fn should_return_400_if_given_invalid_input() {
    let input = format!("{{\"update\":{}}}", String::from_utf8(update_body()).unwrap());
    let request = Request::new("GET", "/", input.into_bytes());

    let result = handler(&request);

    assert_eq!(result.reply.status, 400);
    assert!(result.send.is_none());
}

#[test]
fn event_is_acknowledged_to_its_chat() {
    let request = Request::new("POST", "/", update_body());

    let result = handler(&request);

    assert_eq!(result.reply.status, 200);
    assert_eq!(result.reply.body, "Ok");
    let send = result.send.unwrap();
    assert_eq!(send.chat_id, 3);
    assert_eq!(send.text, "ack");
}

#[test]
fn health_path_takes_deliveries_by_post() {
    let request = Request::new("POST", "/health", update_body());

    let result = handler(&request);

    assert_eq!(result.reply.body, "Ok");
    assert_eq!(result.send.unwrap().chat_id, 3);
}

#[test]
fn webhook_answers_the_health_path_like_any_other() {
    let request = Request::new("GET", "/health", "".as_bytes().to_vec());

    let result = handle_webhook(&request);

    assert_eq!(result.reply.status, 400);
    assert_eq!(result.reply.body, "Failed to parse input");
}

#[test]
fn unreadable_body_is_an_internal_error_for_the_webhook() {
    let request = Request { method: "POST".to_string(), path: "/".to_string(), body: None };

    let result = handler(&request);

    assert_eq!(result.reply.status, 500);
    assert_eq!(result.reply.body, "Internal error");
    assert!(result.send.is_none());
}

#[test]
fn service_should_return_400_if_no_input() {
    let request = Request::new("GET", "/", "".as_bytes().to_vec());

    let result = service::handler(&request);

    assert_eq!(result.status, 400);
    assert_eq!(result.body, "Failed to parse input");
}

#[test]
fn service_accepts_an_event() {
    let result = service::handler(&Request::new("POST", "/", update_body()));

    assert_eq!(result.status, 200);
    assert_eq!(result.body, "Ok");
}

#[test]
fn service_reports_an_unreadable_body() {
    let request = Request { method: "POST".to_string(), path: "/".to_string(), body: None };

    let result = service::handler(&request);

    assert_eq!(result.status, 500);
    assert_eq!(result.body, "Internal error");
}

#[test]
fn service_answers_the_health_path_like_any_other() {
    let result = service::handler(&Request::new("GET", "/health", Vec::new()));

    assert_eq!(result.status, 400);
}
