use bottlecap_runner::backend::{
    chat_transport_error, encode_chat_body, interpret_chat_response, models_from_body,
    probe_outcome,
};
use bottlecap_runner::wire::{ChatMessage, ChatOptions, Usage};

fn b(s: &str) -> Vec<u8> {
    s.as_bytes().to_vec()
}

fn text(v: Vec<u8>) -> String {
    String::from_utf8(v).unwrap()
}

#[test]
fn probe_unreachable_is_false_not_an_error() {
    assert_eq!(probe_outcome(None), false);
}

#[test]
fn probe_classifies_http_status() {
    assert_eq!(probe_outcome(Some(200)), true);
    assert_eq!(probe_outcome(Some(204)), true);
    assert_eq!(probe_outcome(Some(299)), true);
    assert_eq!(probe_outcome(Some(300)), false);
    assert_eq!(probe_outcome(Some(404)), false);
    assert_eq!(probe_outcome(Some(500)), false);
}

#[test]
fn chat_body_is_one_shot_with_null_passthrough() {
    let body = encode_chat_body(
        &b("llama3"),
        &vec![ChatMessage { role: b("user"), content: b("hi") }],
        &ChatOptions { temperature: Some(b("0.7")), max_tokens: None, stream: Some(true) },
    );
    // stream:false always, whatever the caller asked; absent options ride as null
    assert_eq!(
        text(body),
        r#"{"model":"llama3","messages":[{"role":"user","content":"hi"}],"stream":false,"options":{"temperature":0.7,"num_predict":null}}"#
    );
}

#[test]
fn chat_body_without_options() {
    let body = encode_chat_body(
        &b("m"),
        &vec![],
        &ChatOptions { temperature: None, max_tokens: Some(64), stream: None },
    );
    assert_eq!(
        text(body),
        r#"{"model":"m","messages":[],"stream":false,"options":{"temperature":null,"num_predict":64}}"#
    );
}

#[test]
fn chat_response_success_yields_content_and_usage() {
    let body = br#"{"message":{"role":"assistant","content":"fine"},"done":true,"prompt_eval_count":11,"eval_count":22}"#;
    let r = interpret_chat_response(200, b"200 OK", body).unwrap();
    assert_eq!(r.0, b("fine"));
    assert_eq!(r.1, Usage { input_tokens: 11, output_tokens: 22 });
}

#[test]
fn chat_response_missing_counters_default_to_zero() {
    let body = br#"{"message":{"role":"assistant","content":"ok"}}"#;
    let r = interpret_chat_response(200, b"200 OK", body).unwrap();
    assert_eq!(r.0, b("ok"));
    assert_eq!(r.1, Usage { input_tokens: 0, output_tokens: 0 });
}

#[test]
fn chat_response_missing_message_defaults_to_empty_content() {
    let body = br#"{"done":true,"prompt_eval_count":1,"eval_count":2}"#;
    let r = interpret_chat_response(200, b"200 OK", body).unwrap();
    assert_eq!(r.0, b(""));
    assert_eq!(r.1, Usage { input_tokens: 1, output_tokens: 2 });
}

#[test]
fn chat_response_http_500_is_an_error_with_the_status_line() {
    let body = br#"{"message":{"role":"assistant","content":"ignored"}}"#;
    let e = interpret_chat_response(500, b"500 Internal Server Error", body).unwrap_err();
    assert_eq!(text(e), "Ollama error: 500 Internal Server Error");
}

#[test]
fn chat_response_undecodable_body_is_an_error() {
    assert!(interpret_chat_response(200, b"200 OK", b"<html>gateway</html>").is_err());
    assert!(interpret_chat_response(200, b"200 OK", br#"{"message":{"content":7}}"#).is_err());
}

#[test]
fn transport_error_text_names_the_cause() {
    let e = chat_transport_error(&b("connection refused"));
    assert_eq!(text(e), "Ollama request failed: connection refused");
}

#[test]
fn model_listing_yields_names_in_order() {
    let body = br#"{"models":[{"name":"llama3:8b","size":1},{"name":"phi3"}]}"#;
    let names = models_from_body(body).unwrap();
    assert_eq!(names, vec![b("llama3:8b"), b("phi3")]);
}

#[test]
fn model_listing_of_the_wrong_shape_yields_nothing() {
    assert_eq!(models_from_body(br#"{"models":[{"title":"x"}]}"#), None);
    assert_eq!(models_from_body(br#"{"tags":[]}"#), None);
    assert_eq!(models_from_body(b"garbage"), None);
}
