use bottlecap_runner::wire::{
    decode_remote, encode_local, encode_remote, ChatMessage, ChatOptions, LocalMessage,
    RemoteMessage, Usage,
};

fn b(s: &str) -> Vec<u8> {
    s.as_bytes().to_vec()
}

fn text(v: Vec<u8>) -> String {
    String::from_utf8(v).unwrap()
}

#[test]
fn encode_auth_exact() {
    let out = encode_local(&LocalMessage::Auth { token: b("tok-1") });
    assert_eq!(text(out), r#"{"type":"auth","token":"tok-1"}"#);
}

#[test]
fn encode_chat_response_full() {
    let out = encode_local(&LocalMessage::ChatResponse {
        request_id: b("r1"),
        content: Some(b("hello")),
        chunk: None,
        done: Some(true),
        error: None,
        usage: Some(Usage { input_tokens: 3, output_tokens: 5 }),
    });
    assert_eq!(
        text(out),
        r#"{"type":"chat_response","requestId":"r1","content":"hello","done":true,"usage":{"inputTokens":3,"outputTokens":5}}"#
    );
}

#[test]
fn encode_chat_response_absent_fields_are_omitted_not_null() {
    let out = encode_local(&LocalMessage::ChatResponse {
        request_id: b("r9"),
        content: None,
        chunk: None,
        done: Some(true),
        error: Some(b("boom")),
        usage: None,
    });
    let s = text(out);
    assert_eq!(s, r#"{"type":"chat_response","requestId":"r9","done":true,"error":"boom"}"#);
    assert!(!s.contains("null"));
    assert!(!s.contains("content"));
    assert!(!s.contains("usage"));
}

#[test]
fn encode_status_full() {
    let out = encode_local(&LocalMessage::Status {
        status: b("online"),
        models: Some(vec![b("llama3"), b("phi")]),
        device_name: Some(b("box")),
    });
    assert_eq!(
        text(out),
        r#"{"type":"status","status":"online","models":["llama3","phi"],"deviceName":"box"}"#
    );
}

#[test]
fn encode_status_bare() {
    let out = encode_local(&LocalMessage::Status {
        status: b("online"),
        models: None,
        device_name: None,
    });
    let s = text(out);
    assert_eq!(s, r#"{"type":"status","status":"online"}"#);
    assert!(!s.contains("null"));
}

#[test]
fn encode_escapes_strings() {
    let out = encode_local(&LocalMessage::Auth { token: b("a\"b\\c\nd\te") });
    assert_eq!(text(out), "{\"type\":\"auth\",\"token\":\"a\\\"b\\\\c\\nd\\te\"}");
}

#[test]
fn decode_auth_success_tolerates_order_whitespace_and_extras() {
    let frame = br#" { "runnerId" : "run-7" , "extra" : [1, 2.5, {"x": null}] , "type" : "auth_success" } "#;
    let m = decode_remote(frame).unwrap();
    assert_eq!(m, RemoteMessage::AuthSuccess { runner_id: b("run-7") });
}

#[test]
fn decode_chat_request_values() {
    let frame = br#"{"type":"chat_request","requestId":"r1","model":"llama3","messages":[{"role":"user","content":"hi"}],"options":{"temperature":0.7,"max_tokens":128,"stream":true}}"#;
    let m = decode_remote(frame).unwrap();
    match m {
        RemoteMessage::ChatRequest { request_id, model, messages, options } => {
            assert_eq!(request_id, b("r1"));
            assert_eq!(model, b("llama3"));
            assert_eq!(messages.len(), 1);
            assert_eq!(messages[0].role, b("user"));
            assert_eq!(messages[0].content, b("hi"));
            assert_eq!(options.temperature, Some(b("0.7")));
            assert_eq!(options.max_tokens, Some(128));
            assert_eq!(options.stream, Some(true));
        }
        _ => panic!("wrong variant"),
    }
}

#[test]
fn decode_chat_request_empty_options_and_null_entries() {
    let frame = br#"{"type":"chat_request","requestId":"r2","model":"m","messages":[],"options":{"temperature":null}}"#;
    let m = decode_remote(frame).unwrap();
    match m {
        RemoteMessage::ChatRequest { messages, options, .. } => {
            assert!(messages.is_empty());
            assert_eq!(options.temperature, None);
            assert_eq!(options.max_tokens, None);
            assert_eq!(options.stream, None);
        }
        _ => panic!("wrong variant"),
    }
}

#[test]
fn decode_unknown_tag_is_dropped() {
    assert_eq!(decode_remote(br#"{"type":"howdy","x":1}"#), None);
}

#[test]
fn decode_malformed_json_is_dropped() {
    assert_eq!(decode_remote(b"{\"type\":\"auth_success\""), None);
    assert_eq!(decode_remote(b"not json at all"), None);
}

#[test]
fn decode_chat_request_missing_options_is_dropped() {
    let frame = br#"{"type":"chat_request","requestId":"r","model":"m","messages":[]}"#;
    assert_eq!(decode_remote(frame), None);
}

#[test]
fn decode_chat_request_bad_max_tokens_is_dropped() {
    let frame = br#"{"type":"chat_request","requestId":"r","model":"m","messages":[],"options":{"max_tokens":"many"}}"#;
    assert_eq!(decode_remote(frame), None);
    let frame2 = br#"{"type":"chat_request","requestId":"r","model":"m","messages":[],"options":{"max_tokens":1.5}}"#;
    assert_eq!(decode_remote(frame2), None);
}

#[test]
fn remote_round_trip_auth_success() {
    let m = RemoteMessage::AuthSuccess { runner_id: b("runner \"42\"\n") };
    let frame = encode_remote(&m);
    assert_eq!(decode_remote(&frame), Some(m));
}

#[test]
fn remote_round_trip_chat_request() {
    let m = RemoteMessage::ChatRequest {
        request_id: b("r-42"),
        model: b("llama3:8b"),
        messages: vec![
            ChatMessage { role: b("system"), content: b("be\tbrief") },
            ChatMessage { role: b("user"), content: b("hi \\ there \"friend\"") },
        ],
        options: ChatOptions {
            temperature: Some(b("0.25")),
            max_tokens: Some(-1),
            stream: None,
        },
    };
    let frame = encode_remote(&m);
    assert_eq!(decode_remote(&frame), Some(m));
}

#[test]
fn decode_control_escapes() {
    let frame = br#"{"type":"auth_success","runnerId":"a\u0001b\u007f"}"#;
    let m = decode_remote(frame).unwrap();
    assert_eq!(m, RemoteMessage::AuthSuccess { runner_id: vec![b'a', 1u8, b'b', 0x7f] });
}

#[test]
fn decode_preserves_message_order() {
    let frame = br#"{"type":"chat_request","requestId":"r","model":"m","messages":[{"role":"a","content":"1"},{"role":"b","content":"2"},{"role":"c","content":"3"}],"options":{}}"#;
    match decode_remote(frame).unwrap() {
        RemoteMessage::ChatRequest { messages, .. } => {
            let roles: Vec<Vec<u8>> = messages.iter().map(|m| m.role.clone()).collect();
            assert_eq!(roles, vec![b("a"), b("b"), b("c")]);
        }
        _ => panic!("wrong variant"),
    }
}

#[test]
fn local_round_trip_auth() {
    let m = LocalMessage::Auth { token: b("se\ncret\"x\"") };
    let frame = encode_local(&m);
    assert_eq!(bottlecap_runner::wire::decode_local(&frame), Some(m));
}

#[test]
fn local_round_trip_chat_response() {
    let m = LocalMessage::ChatResponse {
        request_id: b("r1"),
        content: Some(b("to be\\ or not")),
        chunk: None,
        done: Some(true),
        error: None,
        usage: Some(Usage { input_tokens: 2147483647, output_tokens: -3 }),
    };
    let frame = encode_local(&m);
    assert_eq!(bottlecap_runner::wire::decode_local(&frame), Some(m));
}

#[test]
fn local_round_trip_error_response() {
    let m = LocalMessage::ChatResponse {
        request_id: b("r2"),
        content: None,
        chunk: None,
        done: Some(true),
        error: Some(b("it broke")),
        usage: None,
    };
    let frame = encode_local(&m);
    assert_eq!(bottlecap_runner::wire::decode_local(&frame), Some(m));
}

#[test]
fn local_round_trip_status() {
    for m in [
        LocalMessage::Status {
            status: b("online"),
            models: Some(vec![b("llama3"), b("phi")]),
            device_name: Some(b("box")),
        },
        LocalMessage::Status { status: b("online"), models: Some(vec![]), device_name: None },
        LocalMessage::Status { status: b("offline"), models: None, device_name: None },
    ] {
        let frame = encode_local(&m);
        assert_eq!(bottlecap_runner::wire::decode_local(&frame), Some(m));
    }
}

#[test]
fn decode_duplicate_keys_are_dropped() {
    let frame = br#"{"type":"auth_success","runnerId":"a","runnerId":"b"}"#;
    assert_eq!(decode_remote(frame), None);
    let frame2 = br#"{"type":"chat_request","requestId":"r","model":"m","messages":[],"options":{"temperature":1,"temperature":2}}"#;
    assert_eq!(decode_remote(frame2), None);
}

#[test]
fn decode_malformed_numbers_are_dropped() {
    for frame in [
        &br#"{"type":"auth_success","runnerId":"x","n":007}"#[..],
        br#"{"type":"auth_success","runnerId":"x","n":1..2}"#,
        br#"{"type":"auth_success","runnerId":"x","n":-}"#,
        br#"{"type":"auth_success","runnerId":"x","n":1e}"#,
        br#"{"type":"auth_success","runnerId":"x","n":+1}"#,
        br#"{"type":"auth_success","runnerId":"x","n":1.}"#,
    ] {
        assert_eq!(decode_remote(frame), None);
    }
}

#[test]
fn decode_well_formed_numbers_pass() {
    let frame = br#"{"type":"auth_success","runnerId":"x","a":-0.5e+10,"b":0,"c":1E-2,"d":-0}"#;
    let m = decode_remote(frame).unwrap();
    assert_eq!(m, RemoteMessage::AuthSuccess { runner_id: b("x") });
}

#[test]
fn decode_unicode_escapes_beyond_ascii() {
    let frame = br#"{"type":"auth_success","runnerId":"\u0416 \u20ac \ud83d\ude00"}"#;
    let m = decode_remote(frame).unwrap();
    assert_eq!(
        m,
        RemoteMessage::AuthSuccess { runner_id: "\u{416} \u{20ac} \u{1f600}".as_bytes().to_vec() }
    );
}

#[test]
fn decode_lone_surrogate_is_dropped() {
    assert_eq!(decode_remote(br#"{"type":"auth_success","runnerId":"\ud83d"}"#), None);
    assert_eq!(decode_remote(br#"{"type":"auth_success","runnerId":"\ude00"}"#), None);
    assert_eq!(decode_remote(br#"{"type":"auth_success","runnerId":"\ud83dx"}"#), None);
}
