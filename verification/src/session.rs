//! The connection session state machine.
//!
//! A session owns one connection to the remote service for its lifetime:
//! it authenticates, dispatches inbound messages, relays chat requests to
//! the local backend and reports every lifecycle transition.  The machine is
//! a pure step function from state and event to state and actions; a thin
//! driver performs the actions (socket writes, backend calls, event-sink
//! notifications) and feeds the outcomes back in as events.
//!
//! Only transport-level failures end a session.  An unparseable frame is
//! dropped in silence and a failed backend call is answered with an
//! error-carrying response: both leave the session ready.
use vstd::prelude::*;
use vstd::string::StringSliceAdditionalSpecFns;

use crate::json::dec_int;
use crate::wire::{
    dec_remote, ChatMessage, ChatMessageV, ChatOptions, ChatOptionsV, LocalMessage, LocalMessageV,
    RemoteMessage, RemoteMessageV, Usage, decode_remote,
};
use crate::copy_bytes;
use crate::push_lit;
use crate::json::push_dec_i64;

verus! {

/// Lifecycle of a session, from socket opening to teardown.
#[derive(Clone, Copy, PartialEq, Eq, Structural, Debug)]
pub enum SessionState {
    Connecting,
    Authenticating,
    Ready,
    Closing,
    Closed,
}

/// Severity of a log notification to the event sink.
#[derive(Clone, Copy, PartialEq, Eq, Structural, Debug)]
pub enum LogKind {
    Info,
    Success,
    Error,
}

/// Connection status reported to the event sink.
#[derive(Clone, Copy, PartialEq, Eq, Structural, Debug)]
pub enum ConnStatus {
    Connecting,
    Connected,
    Disconnected,
    Error,
}

/// What the driver observed: an I/O outcome, an inbound frame, the
/// cancellation signal, or the result of an action it was asked to perform.
#[derive(PartialEq, Eq, Debug)]
pub enum Event {
    /// The socket to the remote service opened.
    ConnectOk,
    /// The socket could not be opened; the payload is the failure text.
    ConnectFailed(Vec<u8>),
    /// The authentication frame was written.
    AuthSendOk,
    /// The authentication frame could not be written.
    AuthSendFailed(Vec<u8>),
    /// The cancellation signal fired.
    Cancelled,
    /// A text frame arrived.
    TextFrame(Vec<u8>),
    /// A transport ping arrived.
    PingFrame(Vec<u8>),
    /// Some other frame arrived (binary, pong).
    OtherFrame,
    /// A close frame arrived.
    CloseFrame,
    /// The stream ended without a close frame.
    StreamEnded,
    /// Reading the socket failed; the payload is the failure text.
    ReadFailed(Vec<u8>),
    /// Answer to a capability query: the model names if the backend
    /// answered, and the device name if one is known.
    CapabilityResult(Option<Vec<Vec<u8>>>, Option<Vec<u8>>),
    /// Answer to a relayed chat request: the correlation token, then the
    /// backend's content and usage, or the failure text.
    ChatOutcome(Vec<u8>, Result<(Vec<u8>, Usage), Vec<u8>>),
    /// The socket has been torn down after closing began.
    TornDown,
}

pub enum EventV {
    ConnectOk,
    ConnectFailed(Seq<u8>),
    AuthSendOk,
    AuthSendFailed(Seq<u8>),
    Cancelled,
    TextFrame(Seq<u8>),
    PingFrame(Seq<u8>),
    OtherFrame,
    CloseFrame,
    StreamEnded,
    ReadFailed(Seq<u8>),
    CapabilityResult(Option<Seq<Seq<u8>>>, Option<Seq<u8>>),
    ChatOutcome(Seq<u8>, Result<(Seq<u8>, Usage), Seq<u8>>),
    TornDown,
}

impl DeepView for Event {
    type V = EventV;

    open spec fn deep_view(&self) -> EventV {
        match self {
            Event::ConnectOk => EventV::ConnectOk,
            Event::ConnectFailed(e) => EventV::ConnectFailed(e@),
            Event::AuthSendOk => EventV::AuthSendOk,
            Event::AuthSendFailed(e) => EventV::AuthSendFailed(e@),
            Event::Cancelled => EventV::Cancelled,
            Event::TextFrame(t) => EventV::TextFrame(t@),
            Event::PingFrame(d) => EventV::PingFrame(d@),
            Event::OtherFrame => EventV::OtherFrame,
            Event::CloseFrame => EventV::CloseFrame,
            Event::StreamEnded => EventV::StreamEnded,
            Event::ReadFailed(e) => EventV::ReadFailed(e@),
            Event::CapabilityResult(models, device) => EventV::CapabilityResult(
                match models {
                    Some(list) => Some(list.deep_view()),
                    None => None,
                },
                match device {
                    Some(d) => Some(d@),
                    None => None,
                },
            ),
            Event::ChatOutcome(rid, outcome) => EventV::ChatOutcome(
                rid@,
                match outcome {
                    Ok((content, usage)) => Ok((content@, *usage)),
                    Err(e) => Err(e@),
                },
            ),
            Event::TornDown => EventV::TornDown,
        }
    }
}

/// What the driver must do next, in order.
#[derive(Clone, PartialEq, Eq, Debug)]
pub enum Action {
    /// Report a connection status to the event sink, with failure text.
    EmitStatus(ConnStatus, Option<Vec<u8>>),
    /// Report the available model names to the event sink.
    EmitModels(Vec<Vec<u8>>),
    /// Report a log line to the event sink.
    EmitLog(LogKind, Vec<u8>),
    /// Send an outbound message over the socket as one text frame.
    Send(LocalMessage),
    /// Answer a transport ping with the matching pong.
    Pong(Vec<u8>),
    /// Ask the backend for its model list and the machine for its name.
    QueryCapability,
    /// Run a chat completion against the backend.
    RunChat {
        request_id: Vec<u8>,
        model: Vec<u8>,
        messages: Vec<ChatMessage>,
        options: ChatOptions,
    },
}

pub enum ActionV {
    EmitStatus(ConnStatus, Option<Seq<u8>>),
    EmitModels(Seq<Seq<u8>>),
    EmitLog(LogKind, Seq<u8>),
    Send(LocalMessageV),
    Pong(Seq<u8>),
    QueryCapability,
    RunChat {
        request_id: Seq<u8>,
        model: Seq<u8>,
        messages: Seq<ChatMessageV>,
        options: ChatOptionsV,
    },
}

impl DeepView for Action {
    type V = ActionV;

    open spec fn deep_view(&self) -> ActionV {
        match self {
            Action::EmitStatus(st, e) => ActionV::EmitStatus(
                *st,
                match e {
                    Some(t) => Some(t@),
                    None => None,
                },
            ),
            Action::EmitModels(list) => ActionV::EmitModels(list.deep_view()),
            Action::EmitLog(kind, text) => ActionV::EmitLog(*kind, text@),
            Action::Send(m) => ActionV::Send(m.deep_view()),
            Action::Pong(d) => ActionV::Pong(d@),
            Action::QueryCapability => ActionV::QueryCapability,
            Action::RunChat { request_id, model, messages, options } => ActionV::RunChat {
                request_id: request_id@,
                model: model@,
                messages: messages.deep_view(),
                options: options.deep_view(),
            },
        }
    }
}

/// One session: its lifecycle state and the token it authenticates with.
#[derive(Clone, PartialEq, Eq, Debug)]
pub struct Session {
    pub state: SessionState,
    pub token: Vec<u8>,
}

pub struct SessionV {
    pub state: SessionState,
    pub token: Seq<u8>,
}

impl DeepView for Session {
    type V = SessionV;

    open spec fn deep_view(&self) -> SessionV {
        SessionV { state: self.state, token: self.token@ }
    }
}

pub open spec fn with_state(s: SessionV, st: SessionState) -> SessionV {
    SessionV { state: st, token: s.token }
}

pub open spec fn report_disconnected() -> ActionV {
    ActionV::EmitStatus(ConnStatus::Disconnected, None)
}

/// What a fresh session is, and what it first does: it starts connecting
/// and reports so.
pub open spec fn start_spec(token: Seq<u8>) -> (SessionV, Seq<ActionV>) {
    (
        SessionV { state: SessionState::Connecting, token: token },
        seq![ActionV::EmitStatus(ConnStatus::Connecting, None)],
    )
}

/// Dispatch of one event in the ready state.
pub open spec fn step_ready(s: SessionV, e: EventV) -> (SessionV, Seq<ActionV>) {
    match e {
        EventV::Cancelled => (with_state(s, SessionState::Closing), seq![report_disconnected()]),
        EventV::CloseFrame => (with_state(s, SessionState::Closing), seq![report_disconnected()]),
        EventV::StreamEnded => (with_state(s, SessionState::Closing), seq![report_disconnected()]),
        EventV::ReadFailed(err) => (
            with_state(s, SessionState::Closed),
            seq![
                ActionV::EmitStatus(
                    ConnStatus::Error,
                    Some(("WebSocket error: ").spec_bytes() + err),
                )
            ],
        ),
        EventV::PingFrame(d) => (s, seq![ActionV::Pong(d)]),
        EventV::TextFrame(t) => match dec_remote(t) {
            Some(RemoteMessageV::AuthSuccess { .. }) => (
                s,
                seq![
                    ActionV::EmitStatus(ConnStatus::Connected, None),
                    ActionV::QueryCapability,
                ],
            ),
            Some(RemoteMessageV::ChatRequest { request_id, model, messages, options }) => (
                s,
                seq![
                    ActionV::EmitLog(LogKind::Info, ("Request for model: ").spec_bytes() + model),
                    ActionV::RunChat { request_id, model, messages, options },
                ],
            ),
            None => (s, Seq::empty()),
        },
        EventV::CapabilityResult(models, device) => match models {
            Some(list) => (
                s,
                seq![
                    ActionV::EmitModels(list),
                    ActionV::Send(
                        LocalMessageV::Status {
                            status: ("online").spec_bytes(),
                            models: Some(list),
                            device_name: device,
                        },
                    ),
                ],
            ),
            None => (s, Seq::empty()),
        },
        EventV::ChatOutcome(request_id, outcome) => match outcome {
            Ok((content, usage)) => (
                s,
                seq![
                    ActionV::EmitLog(
                        LogKind::Success,
                        ("Completed: ").spec_bytes() + dec_int(
                            usage.input_tokens + usage.output_tokens,
                        ) + (" tokens").spec_bytes(),
                    ),
                    ActionV::Send(
                        LocalMessageV::ChatResponse {
                            request_id: request_id,
                            content: Some(content),
                            chunk: None,
                            done: Some(true),
                            error: None,
                            usage: Some(usage),
                        },
                    ),
                ],
            ),
            Err(err) => (
                s,
                seq![
                    ActionV::EmitLog(LogKind::Error, ("Error: ").spec_bytes() + err),
                    ActionV::Send(
                        LocalMessageV::ChatResponse {
                            request_id: request_id,
                            content: None,
                            chunk: None,
                            done: Some(true),
                            error: Some(err),
                            usage: None,
                        },
                    ),
                ],
            ),
        },
        _ => (s, Seq::empty()),
    }
}

/// The whole transition table: next state and the actions owed, per state
/// and event.
pub open spec fn step_spec(s: SessionV, e: EventV) -> (SessionV, Seq<ActionV>) {
    match s.state {
        SessionState::Connecting => match e {
            EventV::ConnectOk => (
                with_state(s, SessionState::Authenticating),
                seq![ActionV::Send(LocalMessageV::Auth { token: s.token })],
            ),
            EventV::ConnectFailed(err) => (
                with_state(s, SessionState::Closed),
                seq![
                    ActionV::EmitStatus(
                        ConnStatus::Error,
                        Some(("WebSocket connection failed: ").spec_bytes() + err),
                    )
                ],
            ),
            EventV::Cancelled => (
                with_state(s, SessionState::Closing),
                seq![report_disconnected()],
            ),
            _ => (s, Seq::empty()),
        },
        SessionState::Authenticating => match e {
            EventV::AuthSendOk => (with_state(s, SessionState::Ready), Seq::empty()),
            EventV::AuthSendFailed(err) => (
                with_state(s, SessionState::Closed),
                seq![
                    ActionV::EmitStatus(
                        ConnStatus::Error,
                        Some(("Failed to send auth: ").spec_bytes() + err),
                    )
                ],
            ),
            EventV::Cancelled => (
                with_state(s, SessionState::Closing),
                seq![report_disconnected()],
            ),
            _ => (s, Seq::empty()),
        },
        SessionState::Ready => step_ready(s, e),
        SessionState::Closing => (with_state(s, SessionState::Closed), Seq::empty()),
        SessionState::Closed => (s, Seq::empty()),
    }
}

fn copy_bytes_list(v: &Vec<Vec<u8>>) -> (r: Vec<Vec<u8>>)
    ensures
        r.deep_view() == v.deep_view(),
{
    let mut out: Vec<Vec<u8>> = Vec::new();
    let mut k: usize = 0;
    while k < v.len()
        invariant
            k <= v@.len(),
            out.deep_view() =~= v.deep_view().take(k as int),
        decreases v@.len() - k,
    {
        let ghost pre = out.deep_view();
        out.push(copy_bytes(&v[k]));
        proof {
            assert(out.deep_view() =~~= pre.push(v@[k as int]@));
            assert(out.deep_view() =~~= v.deep_view().take(k as int + 1));
        }
        k = k + 1;
    }
    assert(v.deep_view().take(v@.len() as int) =~= v.deep_view());
    out
}

/// Builds the text of a completion log line: `Completed: N tokens`.
fn completed_log(usage: &Usage) -> (r: Vec<u8>)
    ensures
        r@ == ("Completed: ").spec_bytes() + dec_int(
            usage.input_tokens + usage.output_tokens,
        ) + (" tokens").spec_bytes(),
{
    let mut out: Vec<u8> = Vec::new();
    push_lit(&mut out, "Completed: ");
    let sum: i64 = usage.input_tokens as i64 + usage.output_tokens as i64;
    push_dec_i64(&mut out, sum);
    push_lit(&mut out, " tokens");
    assert(out@ =~= ("Completed: ").spec_bytes() + dec_int(
        usage.input_tokens + usage.output_tokens,
    ) + (" tokens").spec_bytes());
    out
}

/// Concatenates a literal prefix and a payload.
fn prefixed(pre: &str, tail: &Vec<u8>) -> (r: Vec<u8>)
    ensures
        r@ == pre.spec_bytes() + tail@,
{
    let mut out: Vec<u8> = Vec::new();
    push_lit(&mut out, pre);
    let mut t = copy_bytes(tail);
    out.append(&mut t);
    out
}

/// A fresh session bound to a token: it starts connecting and says so.
/// Exactly [`start_spec`].
pub fn session_new(token: Vec<u8>) -> (r: (Session, Vec<Action>))
    ensures
        (r.0.deep_view(), r.1.deep_view()) == start_spec(token@),
{
    let s = Session { state: SessionState::Connecting, token };
    let mut acts: Vec<Action> = Vec::new();
    acts.push(Action::EmitStatus(ConnStatus::Connecting, None));
    assert(acts.deep_view() =~= seq![ActionV::EmitStatus(ConnStatus::Connecting, None)]);
    (s, acts)
}

/// Feeds one event to the session and yields the actions owed, exactly
/// [`step_spec`]: the single place every transition of the machine is
/// decided.
pub fn step(s: &mut Session, e: &Event) -> (acts: Vec<Action>)
    ensures
        (final(s).deep_view(), acts.deep_view()) == step_spec(old(s).deep_view(), e.deep_view()),
{
    let ghost pre = s.deep_view();
    let ghost ev = e.deep_view();
    let mut acts: Vec<Action> = Vec::new();
    assert(acts.deep_view() =~= Seq::<ActionV>::empty());
    match s.state {
        SessionState::Connecting => {
            match e {
                Event::ConnectOk => {
                    s.state = SessionState::Authenticating;
                    acts.push(Action::Send(LocalMessage::Auth { token: copy_bytes(&s.token) }));
                    assert(acts.deep_view() =~= step_spec(pre, ev).1);
                },
                Event::ConnectFailed(err) => {
                    s.state = SessionState::Closed;
                    acts.push(
                        Action::EmitStatus(
                            ConnStatus::Error,
                            Some(prefixed("WebSocket connection failed: ", err)),
                        ),
                    );
                    assert(acts.deep_view() =~= step_spec(pre, ev).1);
                },
                Event::Cancelled => {
                    s.state = SessionState::Closing;
                    acts.push(Action::EmitStatus(ConnStatus::Disconnected, None));
                    assert(acts.deep_view() =~= step_spec(pre, ev).1);
                },
                _ => {
                    assert(acts.deep_view() =~= step_spec(pre, ev).1);
                },
            }
        },
        SessionState::Authenticating => {
            match e {
                Event::AuthSendOk => {
                    s.state = SessionState::Ready;
                    assert(acts.deep_view() =~= step_spec(pre, ev).1);
                },
                Event::AuthSendFailed(err) => {
                    s.state = SessionState::Closed;
                    acts.push(
                        Action::EmitStatus(
                            ConnStatus::Error,
                            Some(prefixed("Failed to send auth: ", err)),
                        ),
                    );
                    assert(acts.deep_view() =~= step_spec(pre, ev).1);
                },
                Event::Cancelled => {
                    s.state = SessionState::Closing;
                    acts.push(Action::EmitStatus(ConnStatus::Disconnected, None));
                    assert(acts.deep_view() =~= step_spec(pre, ev).1);
                },
                _ => {
                    assert(acts.deep_view() =~= step_spec(pre, ev).1);
                },
            }
        },
        SessionState::Ready => {
            match e {
                Event::Cancelled | Event::CloseFrame | Event::StreamEnded => {
                    s.state = SessionState::Closing;
                    acts.push(Action::EmitStatus(ConnStatus::Disconnected, None));
                    assert(acts.deep_view() =~= step_spec(pre, ev).1);
                },
                Event::ReadFailed(err) => {
                    s.state = SessionState::Closed;
                    acts.push(
                        Action::EmitStatus(
                            ConnStatus::Error,
                            Some(prefixed("WebSocket error: ", err)),
                        ),
                    );
                    assert(acts.deep_view() =~= step_spec(pre, ev).1);
                },
                Event::PingFrame(d) => {
                    acts.push(Action::Pong(copy_bytes(d)));
                    assert(acts.deep_view() =~= step_spec(pre, ev).1);
                },
                Event::TextFrame(t) => {
                    match decode_remote(t.as_slice()) {
                        Some(RemoteMessage::AuthSuccess { .. }) => {
                            acts.push(Action::EmitStatus(ConnStatus::Connected, None));
                            acts.push(Action::QueryCapability);
                            assert(acts.deep_view() =~= step_spec(pre, ev).1);
                        },
                        Some(
                            RemoteMessage::ChatRequest { request_id, model, messages, options },
                        ) => {
                            acts.push(
                                Action::EmitLog(
                                    LogKind::Info,
                                    prefixed("Request for model: ", &model),
                                ),
                            );
                            acts.push(
                                Action::RunChat { request_id, model, messages, options },
                            );
                            assert(acts.deep_view() =~= step_spec(pre, ev).1);
                        },
                        None => {
                            assert(acts.deep_view() =~= step_spec(pre, ev).1);
                        },
                    }
                },
                Event::CapabilityResult(models, device) => {
                    match models {
                        Some(list) => {
                            acts.push(Action::EmitModels(copy_bytes_list(list)));
                            let device_copy: Option<Vec<u8>> = match device {
                                Some(d) => Some(copy_bytes(d)),
                                None => None,
                            };
                            let mut status: Vec<u8> = Vec::new();
                            push_lit(&mut status, "online");
                            assert(status@ =~= ("online").spec_bytes());
                            acts.push(
                                Action::Send(
                                    LocalMessage::Status {
                                        status,
                                        models: Some(copy_bytes_list(list)),
                                        device_name: device_copy,
                                    },
                                ),
                            );
                            assert(acts.deep_view() =~= step_spec(pre, ev).1);
                        },
                        None => {
                            assert(acts.deep_view() =~= step_spec(pre, ev).1);
                        },
                    }
                },
                Event::ChatOutcome(request_id, outcome) => {
                    match outcome {
                        Ok((content, usage)) => {
                            acts.push(Action::EmitLog(LogKind::Success, completed_log(usage)));
                            acts.push(
                                Action::Send(
                                    LocalMessage::ChatResponse {
                                        request_id: copy_bytes(request_id),
                                        content: Some(copy_bytes(content)),
                                        chunk: None,
                                        done: Some(true),
                                        error: None,
                                        usage: Some(*usage),
                                    },
                                ),
                            );
                            assert(acts.deep_view() =~= step_spec(pre, ev).1);
                        },
                        Err(err) => {
                            acts.push(Action::EmitLog(LogKind::Error, prefixed("Error: ", err)));
                            acts.push(
                                Action::Send(
                                    LocalMessage::ChatResponse {
                                        request_id: copy_bytes(request_id),
                                        content: None,
                                        chunk: None,
                                        done: Some(true),
                                        error: Some(copy_bytes(err)),
                                        usage: None,
                                    },
                                ),
                            );
                            assert(acts.deep_view() =~= step_spec(pre, ev).1);
                        },
                    }
                },
                _ => {
                    assert(acts.deep_view() =~= step_spec(pre, ev).1);
                },
            }
        },
        SessionState::Closing => {
            s.state = SessionState::Closed;
            assert(acts.deep_view() =~= step_spec(pre, ev).1);
        },
        SessionState::Closed => {
            assert(acts.deep_view() =~= step_spec(pre, ev).1);
        },
    }
    acts
}


/// Law: in the ready state, a close frame and an unexpected end of stream
/// act alike: the session moves to `Closed` by way of `Closing`, the
/// "disconnected" status is reported exactly once, and from then on no
/// event is dispatched or answered any more.
pub proof fn lemma_close_reports_disconnected_once(s: SessionV, e: EventV)
    requires
        s.state == SessionState::Ready,
        e == EventV::CloseFrame || e == EventV::StreamEnded,
    ensures
        step_spec(s, e).0.state == SessionState::Closing,
        step_spec(s, e).1 == seq![report_disconnected()],
        forall|e2: EventV|
            (#[trigger] step_spec(step_spec(s, e).0, e2)).0.state == SessionState::Closed
                && step_spec(step_spec(s, e).0, e2).1.len() == 0,
{
}

/// Law: a closed session is terminal: no event changes it and none draws
/// an action out of it.
pub proof fn lemma_closed_absorbing(s: SessionV, e: EventV)
    requires
        s.state == SessionState::Closed,
    ensures
        step_spec(s, e) == (s, Seq::<ActionV>::empty()),
{
}

/// Law: a text frame that does not decode to a message is dropped in
/// silence: the session stays ready, nothing is reported, nothing is sent
/// and nothing is torn down.
pub proof fn lemma_unparseable_frame_ignored(s: SessionV, t: Seq<u8>)
    requires
        s.state == SessionState::Ready,
        dec_remote(t) is None,
    ensures
        step_spec(s, EventV::TextFrame(t)) == (s, Seq::<ActionV>::empty()),
{
}

/// Law: a chat request whose backend call succeeded is answered with
/// exactly one response: it carries the request's own correlation token,
/// the backend's content, `done`, the usage, and no error; the session
/// stays ready.
pub proof fn lemma_chat_success_single_response(
    s: SessionV,
    rid: Seq<u8>,
    content: Seq<u8>,
    usage: Usage,
)
    requires
        s.state == SessionState::Ready,
    ensures
        ({
            let (s1, acts) = step_spec(s, EventV::ChatOutcome(rid, Ok((content, usage))));
            &&& s1 == s
            &&& acts.len() == 2
            &&& acts[0] is EmitLog
            &&& acts[1] == ActionV::Send(
                LocalMessageV::ChatResponse {
                    request_id: rid,
                    content: Some(content),
                    chunk: None,
                    done: Some(true),
                    error: None,
                    usage: Some(usage),
                },
            )
            &&& forall|i: int| 0 <= i < acts.len() && (#[trigger] acts[i]) is Send ==> i == 1
        }),
{
}

/// Law: a chat request whose backend call failed is answered with exactly
/// one response: it carries the request's own correlation token, the error
/// text and `done`, and neither content nor usage; the session stays ready.
pub proof fn lemma_chat_failure_single_response(s: SessionV, rid: Seq<u8>, err: Seq<u8>)
    requires
        s.state == SessionState::Ready,
    ensures
        ({
            let (s1, acts) = step_spec(s, EventV::ChatOutcome(rid, Err(err)));
            &&& s1 == s
            &&& acts.len() == 2
            &&& acts[0] is EmitLog
            &&& acts[1] == ActionV::Send(
                LocalMessageV::ChatResponse {
                    request_id: rid,
                    content: None,
                    chunk: None,
                    done: Some(true),
                    error: Some(err),
                    usage: None,
                },
            )
            &&& forall|i: int| 0 <= i < acts.len() && (#[trigger] acts[i]) is Send ==> i == 1
        }),
{
}

} // verus!
