use bottlecap_runner::session::{
    session_new, step, Action, ConnStatus, Event, LogKind, Session, SessionState,
};
use bottlecap_runner::wire::{LocalMessage, RemoteMessage, Usage};

fn b(s: &str) -> Vec<u8> {
    s.as_bytes().to_vec()
}

fn ready_session() -> Session {
    let (mut s, _) = session_new(b("tok"));
    let acts = step(&mut s, &Event::ConnectOk);
    assert_eq!(acts.len(), 1);
    let acts = step(&mut s, &Event::AuthSendOk);
    assert!(acts.is_empty());
    assert_eq!(s.state, SessionState::Ready);
    s
}

#[test]
fn new_session_reports_connecting() {
    let (s, acts) = session_new(b("tok"));
    assert_eq!(s.state, SessionState::Connecting);
    assert_eq!(acts, vec![Action::EmitStatus(ConnStatus::Connecting, None)]);
}

#[test]
fn connect_ok_sends_auth() {
    let (mut s, _) = session_new(b("tok"));
    let acts = step(&mut s, &Event::ConnectOk);
    assert_eq!(s.state, SessionState::Authenticating);
    assert_eq!(acts, vec![Action::Send(LocalMessage::Auth { token: b("tok") })]);
}

#[test]
fn connect_failure_reports_error_and_closes() {
    let (mut s, _) = session_new(b("tok"));
    let acts = step(&mut s, &Event::ConnectFailed(b("refused")));
    assert_eq!(s.state, SessionState::Closed);
    assert_eq!(
        acts,
        vec![Action::EmitStatus(
            ConnStatus::Error,
            Some(b("WebSocket connection failed: refused"))
        )]
    );
}

#[test]
fn auth_send_failure_reports_error() {
    let (mut s, _) = session_new(b("tok"));
    step(&mut s, &Event::ConnectOk);
    let acts = step(&mut s, &Event::AuthSendFailed(b("pipe")));
    assert_eq!(s.state, SessionState::Closed);
    assert_eq!(
        acts,
        vec![Action::EmitStatus(ConnStatus::Error, Some(b("Failed to send auth: pipe")))]
    );
}

#[test]
fn auth_success_frame_reports_connected_and_queries_capability() {
    let mut s = ready_session();
    let frame = b(r#"{"type":"auth_success","runnerId":"me"}"#);
    let acts = step(&mut s, &Event::TextFrame(frame.clone()));
    assert_eq!(s.state, SessionState::Ready);
    assert_eq!(
        acts,
        vec![Action::EmitStatus(ConnStatus::Connected, None), Action::QueryCapability]
    );
    // a repeated acknowledgement is re-processed the same way, not an error
    let acts2 = step(&mut s, &Event::TextFrame(frame));
    assert_eq!(s.state, SessionState::Ready);
    assert_eq!(acts2, acts);
}

#[test]
fn chat_request_frame_dispatches_to_backend() {
    let mut s = ready_session();
    let frame =
        b(r#"{"type":"chat_request","requestId":"r1","model":"llama3","messages":[{"role":"user","content":"hi"}],"options":{}}"#);
    let acts = step(&mut s, &Event::TextFrame(frame));
    assert_eq!(s.state, SessionState::Ready);
    assert_eq!(acts.len(), 2);
    assert_eq!(acts[0], Action::EmitLog(LogKind::Info, b("Request for model: llama3")));
    match &acts[1] {
        Action::RunChat { request_id, model, messages, .. } => {
            assert_eq!(request_id, &b("r1"));
            assert_eq!(model, &b("llama3"));
            assert_eq!(messages.len(), 1);
        }
        other => panic!("expected a chat dispatch, got {:?}", other),
    }
}

#[test]
fn chat_success_produces_exactly_one_response() {
    let mut s = ready_session();
    let usage = Usage { input_tokens: 7, output_tokens: 9 };
    let acts = step(
        &mut s,
        &Event::ChatOutcome(b("r1"), Ok((b("the answer"), usage))),
    );
    assert_eq!(s.state, SessionState::Ready);
    let sends: Vec<&Action> =
        acts.iter().filter(|a| matches!(a, Action::Send(_))).collect();
    assert_eq!(sends.len(), 1);
    assert_eq!(
        *sends[0],
        Action::Send(LocalMessage::ChatResponse {
            request_id: b("r1"),
            content: Some(b("the answer")),
            chunk: None,
            done: Some(true),
            error: None,
            usage: Some(usage),
        })
    );
    assert_eq!(acts[0], Action::EmitLog(LogKind::Success, b("Completed: 16 tokens")));
}

#[test]
fn chat_failure_produces_exactly_one_error_response() {
    let mut s = ready_session();
    let acts = step(&mut s, &Event::ChatOutcome(b("r1"), Err(b("Ollama error: 500"))));
    assert_eq!(s.state, SessionState::Ready);
    let sends: Vec<&Action> =
        acts.iter().filter(|a| matches!(a, Action::Send(_))).collect();
    assert_eq!(sends.len(), 1);
    match sends[0] {
        Action::Send(LocalMessage::ChatResponse {
            request_id,
            content,
            done,
            error,
            usage,
            ..
        }) => {
            assert_eq!(request_id, &b("r1"));
            assert_eq!(content, &None);
            assert_eq!(done, &Some(true));
            assert_eq!(error, &Some(b("Ollama error: 500")));
            assert!(!error.as_ref().unwrap().is_empty());
            assert_eq!(usage, &None);
        }
        other => panic!("expected an error response, got {:?}", other),
    }
}

#[test]
fn ping_is_answered_with_pong() {
    let mut s = ready_session();
    let acts = step(&mut s, &Event::PingFrame(vec![1, 2, 3]));
    assert_eq!(s.state, SessionState::Ready);
    assert_eq!(acts, vec![Action::Pong(vec![1, 2, 3])]);
}

#[test]
fn close_frame_disconnects_once_and_ends_dispatch() {
    let mut s = ready_session();
    let acts = step(&mut s, &Event::CloseFrame);
    assert_eq!(s.state, SessionState::Closing);
    assert_eq!(acts, vec![Action::EmitStatus(ConnStatus::Disconnected, None)]);
    let acts = step(&mut s, &Event::TornDown);
    assert_eq!(s.state, SessionState::Closed);
    assert!(acts.is_empty());
    let frame = b(r#"{"type":"auth_success","runnerId":"me"}"#);
    let acts = step(&mut s, &Event::TextFrame(frame));
    assert_eq!(s.state, SessionState::Closed);
    assert!(acts.is_empty());
}

#[test]
fn stream_end_acts_like_close_frame() {
    let mut s = ready_session();
    let acts = step(&mut s, &Event::StreamEnded);
    assert_eq!(s.state, SessionState::Closing);
    assert_eq!(acts, vec![Action::EmitStatus(ConnStatus::Disconnected, None)]);
}

#[test]
fn unparseable_frame_leaves_ready_in_silence() {
    let mut s = ready_session();
    for garbage in [
        &b"this is not json"[..],
        br#"{"type":"auth_success""#,
        br#"{"type":"nonsense"}"#,
        br#"[1,2,3]"#,
    ] {
        let acts = step(&mut s, &Event::TextFrame(garbage.to_vec()));
        assert_eq!(s.state, SessionState::Ready);
        assert!(acts.is_empty());
    }
}

#[test]
fn read_error_reports_and_closes() {
    let mut s = ready_session();
    let acts = step(&mut s, &Event::ReadFailed(b("reset")));
    assert_eq!(s.state, SessionState::Closed);
    assert_eq!(
        acts,
        vec![Action::EmitStatus(ConnStatus::Error, Some(b("WebSocket error: reset")))]
    );
}

#[test]
fn cancellation_disconnects_cleanly() {
    let mut s = ready_session();
    let acts = step(&mut s, &Event::Cancelled);
    assert_eq!(s.state, SessionState::Closing);
    assert_eq!(acts, vec![Action::EmitStatus(ConnStatus::Disconnected, None)]);
}

#[test]
fn capability_result_reports_models_and_sends_status() {
    let mut s = ready_session();
    let acts = step(
        &mut s,
        &Event::CapabilityResult(Some(vec![b("llama3"), b("phi")]), Some(b("box"))),
    );
    assert_eq!(acts.len(), 2);
    assert_eq!(acts[0], Action::EmitModels(vec![b("llama3"), b("phi")]));
    assert_eq!(
        acts[1],
        Action::Send(LocalMessage::Status {
            status: b("online"),
            models: Some(vec![b("llama3"), b("phi")]),
            device_name: Some(b("box")),
        })
    );
}

#[test]
fn capability_failure_stays_ready_in_silence() {
    let mut s = ready_session();
    let acts = step(&mut s, &Event::CapabilityResult(None, Some(b("box"))));
    assert_eq!(s.state, SessionState::Ready);
    assert!(acts.is_empty());
}
