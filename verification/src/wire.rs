//! The tagged messages exchanged with the remote coordination service, and
//! their codec.
//!
//! Inbound (remote) messages carry an authentication acknowledgement or a
//! work request; outbound (local) messages carry the authentication token, a
//! chat response or a capability report.  Every message travels as one JSON
//! text frame.  Optional fields of outbound messages are omitted entirely
//! when absent, never written as `null`: the remote service distinguishes
//! absence from `null`.
//!
//! Text is carried as UTF-8 bytes.  A temperature rides through as the raw
//! text of its JSON number, so the codec never forms a floating-point value.
use vstd::prelude::*;
use vstd::string::StringSliceAdditionalSpecFns;

use crate::json::{
    esc, olook, sp_json, i32_of_num, jstr, dec_int, parse_json, parse_i32_token, push_jstr,
    push_dec_i64, Json, JsonV,
};
use crate::push_lit;
use crate::copy_bytes;

verus! {

broadcast use vstd::std_specs::vec::group_vec_axioms;

/// One turn of a conversation, in conversation order.
#[derive(Clone, PartialEq, Eq, Debug)]
pub struct ChatMessage {
    pub role: Vec<u8>,
    pub content: Vec<u8>,
}

pub struct ChatMessageV {
    pub role: Seq<u8>,
    pub content: Seq<u8>,
}

impl DeepView for ChatMessage {
    type V = ChatMessageV;

    open spec fn deep_view(&self) -> ChatMessageV {
        ChatMessageV { role: self.role@, content: self.content@ }
    }
}

/// A passthrough configuration bag for a work request.  `temperature` keeps
/// the raw text of the JSON number it arrived as.
#[derive(Clone, PartialEq, Eq, Debug)]
pub struct ChatOptions {
    pub temperature: Option<Vec<u8>>,
    pub max_tokens: Option<i32>,
    pub stream: Option<bool>,
}

pub struct ChatOptionsV {
    pub temperature: Option<Seq<u8>>,
    pub max_tokens: Option<i32>,
    pub stream: Option<bool>,
}

impl DeepView for ChatOptions {
    type V = ChatOptionsV;

    open spec fn deep_view(&self) -> ChatOptionsV {
        ChatOptionsV {
            temperature: match self.temperature {
                Some(t) => Some(t@),
                None => None,
            },
            max_tokens: self.max_tokens,
            stream: self.stream,
        }
    }
}

/// Token counts reported by the backend, zero where the backend was silent.
#[derive(Clone, Copy, PartialEq, Eq, Structural, Debug)]
pub struct Usage {
    pub input_tokens: i32,
    pub output_tokens: i32,
}

impl DeepView for Usage {
    type V = Usage;

    open spec fn deep_view(&self) -> Usage {
        *self
    }
}

/// A message from the remote service to the runner.
#[derive(Clone, PartialEq, Eq, Debug)]
pub enum RemoteMessage {
    AuthSuccess { runner_id: Vec<u8> },
    ChatRequest {
        request_id: Vec<u8>,
        model: Vec<u8>,
        messages: Vec<ChatMessage>,
        options: ChatOptions,
    },
}

pub enum RemoteMessageV {
    AuthSuccess { runner_id: Seq<u8> },
    ChatRequest {
        request_id: Seq<u8>,
        model: Seq<u8>,
        messages: Seq<ChatMessageV>,
        options: ChatOptionsV,
    },
}

impl DeepView for RemoteMessage {
    type V = RemoteMessageV;

    open spec fn deep_view(&self) -> RemoteMessageV {
        match self {
            RemoteMessage::AuthSuccess { runner_id } => RemoteMessageV::AuthSuccess {
                runner_id: runner_id@,
            },
            RemoteMessage::ChatRequest { request_id, model, messages, options } => {
                RemoteMessageV::ChatRequest {
                    request_id: request_id@,
                    model: model@,
                    messages: messages.deep_view(),
                    options: options.deep_view(),
                }
            },
        }
    }
}

/// A message from the runner to the remote service.
#[derive(Clone, PartialEq, Eq, Debug)]
pub enum LocalMessage {
    Auth { token: Vec<u8> },
    ChatResponse {
        request_id: Vec<u8>,
        content: Option<Vec<u8>>,
        chunk: Option<Vec<u8>>,
        done: Option<bool>,
        error: Option<Vec<u8>>,
        usage: Option<Usage>,
    },
    Status { status: Vec<u8>, models: Option<Vec<Vec<u8>>>, device_name: Option<Vec<u8>> },
}

pub enum LocalMessageV {
    Auth { token: Seq<u8> },
    ChatResponse {
        request_id: Seq<u8>,
        content: Option<Seq<u8>>,
        chunk: Option<Seq<u8>>,
        done: Option<bool>,
        error: Option<Seq<u8>>,
        usage: Option<Usage>,
    },
    Status { status: Seq<u8>, models: Option<Seq<Seq<u8>>>, device_name: Option<Seq<u8>> },
}

pub open spec fn opt_bytes_view(o: Option<Vec<u8>>) -> Option<Seq<u8>> {
    match o {
        Some(v) => Some(v@),
        None => None,
    }
}

impl DeepView for LocalMessage {
    type V = LocalMessageV;

    open spec fn deep_view(&self) -> LocalMessageV {
        match self {
            LocalMessage::Auth { token } => LocalMessageV::Auth { token: token@ },
            LocalMessage::ChatResponse { request_id, content, chunk, done, error, usage } => {
                LocalMessageV::ChatResponse {
                    request_id: request_id@,
                    content: opt_bytes_view(*content),
                    chunk: opt_bytes_view(*chunk),
                    done: *done,
                    error: opt_bytes_view(*error),
                    usage: *usage,
                }
            },
            LocalMessage::Status { status, models, device_name } => {
                LocalMessageV::Status {
                    status: status@,
                    models: match models {
                        Some(list) => Some(list.deep_view()),
                        None => None,
                    },
                    device_name: opt_bytes_view(*device_name),
                }
            },
        }
    }
}

// ---------------------------------------------------------------------------
// Encoding
// ---------------------------------------------------------------------------

/// An optional string field: key and value when present, nothing when absent.
pub open spec fn opt_jstr_field(pre: Seq<u8>, v: Option<Seq<u8>>) -> Seq<u8> {
    match v {
        Some(s) => pre + jstr(s),
        None => Seq::empty(),
    }
}

/// An optional boolean field.
pub open spec fn opt_bool_field(pre: Seq<u8>, v: Option<bool>) -> Seq<u8> {
    match v {
        Some(true) => pre + ("true").spec_bytes(),
        Some(false) => pre + ("false").spec_bytes(),
        None => Seq::empty(),
    }
}

/// The usage field of a response, when present.
pub open spec fn opt_usage_field(v: Option<Usage>) -> Seq<u8> {
    match v {
        Some(u) => (",\"usage\":{\"inputTokens\":").spec_bytes() + dec_int(u.input_tokens as int)
            + (",\"outputTokens\":").spec_bytes() + dec_int(u.output_tokens as int) + (
        "}").spec_bytes(),
        None => Seq::empty(),
    }
}

/// Comma-separated JSON string literals.
pub open spec fn enc_str_items(items: Seq<Seq<u8>>) -> Seq<u8>
    decreases items.len(),
{
    if items.len() == 0 {
        Seq::empty()
    } else if items.len() == 1 {
        jstr(items[0])
    } else {
        enc_str_items(items.drop_last()) + (",").spec_bytes() + jstr(items.last())
    }
}

/// The models field of a capability report, when present.
pub open spec fn opt_models_field(v: Option<Seq<Seq<u8>>>) -> Seq<u8> {
    match v {
        Some(list) => (",\"models\":[").spec_bytes() + enc_str_items(list) + ("]").spec_bytes(),
        None => Seq::empty(),
    }
}

/// The exact frame an outbound message is encoded to.
pub open spec fn enc_local(m: LocalMessageV) -> Seq<u8> {
    match m {
        LocalMessageV::Auth { token } => ("{\"type\":\"auth\",\"token\":").spec_bytes() + jstr(
            token,
        ) + ("}").spec_bytes(),
        LocalMessageV::ChatResponse { request_id, content, chunk, done, error, usage } => (
        "{\"type\":\"chat_response\",\"requestId\":").spec_bytes() + jstr(request_id)
            + opt_jstr_field((",\"content\":").spec_bytes(), content) + opt_jstr_field(
            (",\"chunk\":").spec_bytes(),
            chunk,
        ) + opt_bool_field((",\"done\":").spec_bytes(), done) + opt_jstr_field(
            (",\"error\":").spec_bytes(),
            error,
        ) + opt_usage_field(usage) + ("}").spec_bytes(),
        LocalMessageV::Status { status, models, device_name } => (
        "{\"type\":\"status\",\"status\":").spec_bytes() + jstr(status) + opt_models_field(models)
            + opt_jstr_field((",\"deviceName\":").spec_bytes(), device_name) + ("}").spec_bytes(),
    }
}

/// One conversation turn as encoded inside a work request.
pub open spec fn enc_msg(m: ChatMessageV) -> Seq<u8> {
    ("{\"role\":").spec_bytes() + jstr(m.role) + (",\"content\":").spec_bytes() + jstr(m.content)
        + ("}").spec_bytes()
}

/// Comma-separated conversation turns.
pub open spec fn enc_msg_items(items: Seq<ChatMessageV>) -> Seq<u8>
    decreases items.len(),
{
    if items.len() == 0 {
        Seq::empty()
    } else if items.len() == 1 {
        enc_msg(items[0])
    } else {
        enc_msg_items(items.drop_last()) + (",").spec_bytes() + enc_msg(items.last())
    }
}

/// A raw number, or `null` when absent.
pub open spec fn num_or_null(v: Option<Seq<u8>>) -> Seq<u8> {
    match v {
        Some(t) => t,
        None => ("null").spec_bytes(),
    }
}

/// A decimal integer, or `null` when absent.
pub open spec fn int_or_null(v: Option<i32>) -> Seq<u8> {
    match v {
        Some(n) => dec_int(n as int),
        None => ("null").spec_bytes(),
    }
}

/// A boolean, or `null` when absent.
pub open spec fn bool_or_null(v: Option<bool>) -> Seq<u8> {
    match v {
        Some(true) => ("true").spec_bytes(),
        Some(false) => ("false").spec_bytes(),
        None => ("null").spec_bytes(),
    }
}

/// The options bag as encoded inside a work request.  Unlike the outbound
/// messages, absent entries here are written as explicit `null`s.
pub open spec fn enc_options(o: ChatOptionsV) -> Seq<u8> {
    ("{\"temperature\":").spec_bytes() + num_or_null(o.temperature) + (",\"max_tokens\":").spec_bytes()
        + int_or_null(o.max_tokens) + (",\"stream\":").spec_bytes() + bool_or_null(o.stream) + (
    "}").spec_bytes()
}

/// The exact frame an inbound message is encoded to.
pub open spec fn enc_remote(m: RemoteMessageV) -> Seq<u8> {
    match m {
        RemoteMessageV::AuthSuccess { runner_id } => (
        "{\"type\":\"auth_success\",\"runnerId\":").spec_bytes() + jstr(runner_id) + (
        "}").spec_bytes(),
        RemoteMessageV::ChatRequest { request_id, model, messages, options } => (
        "{\"type\":\"chat_request\",\"requestId\":").spec_bytes() + jstr(request_id) + (
        ",\"model\":").spec_bytes() + jstr(model) + (",\"messages\":[").spec_bytes()
            + enc_msg_items(messages) + ("],\"options\":").spec_bytes() + enc_options(options) + (
        "}").spec_bytes(),
    }
}

fn push_opt_jstr_field(out: &mut Vec<u8>, pre: &str, v: &Option<Vec<u8>>)
    ensures
        final(out)@ == old(out)@ + opt_jstr_field(pre.spec_bytes(), opt_bytes_view(*v)),
{
    match v {
        Some(s) => {
            push_lit(out, pre);
            push_jstr(out, s.as_slice());
            assert(final(out)@ =~= old(out)@ + (pre.spec_bytes() + jstr(s@)));
        },
        None => {
            assert(final(out)@ =~= old(out)@ + Seq::<u8>::empty());
        },
    }
}

fn push_opt_bool_field(out: &mut Vec<u8>, pre: &str, v: &Option<bool>)
    ensures
        final(out)@ == old(out)@ + opt_bool_field(pre.spec_bytes(), *v),
{
    match v {
        Some(b) => {
            push_lit(out, pre);
            if *b {
                push_lit(out, "true");
            } else {
                push_lit(out, "false");
            }
            assert(final(out)@ =~= old(out)@ + opt_bool_field(pre.spec_bytes(), *v));
        },
        None => {
            assert(final(out)@ =~= old(out)@ + Seq::<u8>::empty());
        },
    }
}

fn push_str_items(out: &mut Vec<u8>, items: &Vec<Vec<u8>>)
    ensures
        final(out)@ == old(out)@ + enc_str_items(items.deep_view()),
{
    let ghost base = out@;
    let mut k: usize = 0;
    while k < items.len()
        invariant
            k <= items@.len(),
            base == old(out)@,
            out@ == base + enc_str_items(items.deep_view().take(k as int)),
        decreases items@.len() - k,
    {
        if k > 0 {
            push_lit(out, ",");
        }
        push_jstr(out, items[k].as_slice());
        proof {
            let dv = items.deep_view();
            assert(dv.take(k as int + 1).drop_last() =~= dv.take(k as int));
            assert(dv.take(k as int + 1).last() =~= items@[k as int]@);
            assert(dv[k as int] =~= items@[k as int]@);
            assert(out@ =~= base + enc_str_items(dv.take(k as int + 1)));
        }
        k = k + 1;
    }
    assert(items.deep_view().take(items@.len() as int) =~= items.deep_view());
}

/// Appends comma-separated conversation turns.
pub fn push_msg_items(out: &mut Vec<u8>, items: &Vec<ChatMessage>)
    ensures
        final(out)@ == old(out)@ + enc_msg_items(items.deep_view()),
{
    let ghost base = out@;
    let mut k: usize = 0;
    while k < items.len()
        invariant
            k <= items@.len(),
            base == old(out)@,
            out@ == base + enc_msg_items(items.deep_view().take(k as int)),
        decreases items@.len() - k,
    {
        if k > 0 {
            push_lit(out, ",");
        }
        let m = &items[k];
        push_lit(out, "{\"role\":");
        push_jstr(out, m.role.as_slice());
        push_lit(out, ",\"content\":");
        push_jstr(out, m.content.as_slice());
        push_lit(out, "}");
        proof {
            let dv = items.deep_view();
            assert(dv.take(k as int + 1).drop_last() =~= dv.take(k as int));
            assert(dv.take(k as int + 1).last() == items@[k as int].deep_view());
            assert(out@ =~= base + enc_msg_items(dv.take(k as int + 1)));
        }
        k = k + 1;
    }
    assert(items.deep_view().take(items@.len() as int) =~= items.deep_view());
}

/// Encodes one outbound message to its text frame, exactly [`enc_local`].
pub fn encode_local(m: &LocalMessage) -> (out: Vec<u8>)
    ensures
        out@ == enc_local(m.deep_view()),
{
    let mut out: Vec<u8> = Vec::new();
    match m {
        LocalMessage::Auth { token } => {
            push_lit(&mut out, "{\"type\":\"auth\",\"token\":");
            push_jstr(&mut out, token.as_slice());
            push_lit(&mut out, "}");
            assert(out@ =~= enc_local(m.deep_view()));
        },
        LocalMessage::ChatResponse { request_id, content, chunk, done, error, usage } => {
            push_lit(&mut out, "{\"type\":\"chat_response\",\"requestId\":");
            push_jstr(&mut out, request_id.as_slice());
            push_opt_jstr_field(&mut out, ",\"content\":", content);
            push_opt_jstr_field(&mut out, ",\"chunk\":", chunk);
            push_opt_bool_field(&mut out, ",\"done\":", done);
            push_opt_jstr_field(&mut out, ",\"error\":", error);
            match usage {
                Some(u) => {
                    push_lit(&mut out, ",\"usage\":{\"inputTokens\":");
                    push_dec_i64(&mut out, u.input_tokens as i64);
                    push_lit(&mut out, ",\"outputTokens\":");
                    push_dec_i64(&mut out, u.output_tokens as i64);
                    push_lit(&mut out, "}");
                },
                None => {},
            }
            push_lit(&mut out, "}");
            assert(out@ =~= enc_local(m.deep_view()));
        },
        LocalMessage::Status { status, models, device_name } => {
            push_lit(&mut out, "{\"type\":\"status\",\"status\":");
            push_jstr(&mut out, status.as_slice());
            match models {
                Some(list) => {
                    push_lit(&mut out, ",\"models\":[");
                    push_str_items(&mut out, list);
                    push_lit(&mut out, "]");
                },
                None => {},
            }
            push_opt_jstr_field(&mut out, ",\"deviceName\":", device_name);
            push_lit(&mut out, "}");
            assert(out@ =~= enc_local(m.deep_view()));
        },
    }
    out
}

/// Encodes the options bag, exactly [`enc_options`].
pub fn encode_options(o: &ChatOptions) -> (out: Vec<u8>)
    ensures
        out@ == enc_options(o.deep_view()),
{
    let mut out: Vec<u8> = Vec::new();
    push_lit(&mut out, "{\"temperature\":");
    match &o.temperature {
        Some(t) => {
            let mut tb = copy_bytes(t);
            out.append(&mut tb);
        },
        None => push_lit(&mut out, "null"),
    }
    push_lit(&mut out, ",\"max_tokens\":");
    match &o.max_tokens {
        Some(n) => push_dec_i64(&mut out, *n as i64),
        None => push_lit(&mut out, "null"),
    }
    push_lit(&mut out, ",\"stream\":");
    match &o.stream {
        Some(true) => push_lit(&mut out, "true"),
        Some(false) => push_lit(&mut out, "false"),
        None => push_lit(&mut out, "null"),
    }
    push_lit(&mut out, "}");
    assert(out@ =~= enc_options(o.deep_view()));
    out
}

/// Encodes one inbound message to its text frame, exactly [`enc_remote`].
pub fn encode_remote(m: &RemoteMessage) -> (out: Vec<u8>)
    ensures
        out@ == enc_remote(m.deep_view()),
{
    let mut out: Vec<u8> = Vec::new();
    match m {
        RemoteMessage::AuthSuccess { runner_id } => {
            push_lit(&mut out, "{\"type\":\"auth_success\",\"runnerId\":");
            push_jstr(&mut out, runner_id.as_slice());
            push_lit(&mut out, "}");
            assert(out@ =~= enc_remote(m.deep_view()));
        },
        RemoteMessage::ChatRequest { request_id, model, messages, options } => {
            push_lit(&mut out, "{\"type\":\"chat_request\",\"requestId\":");
            push_jstr(&mut out, request_id.as_slice());
            push_lit(&mut out, ",\"model\":");
            push_jstr(&mut out, model.as_slice());
            push_lit(&mut out, ",\"messages\":[");
            push_msg_items(&mut out, messages);
            push_lit(&mut out, "],\"options\":");
            let mut ob = encode_options(options);
            out.append(&mut ob);
            push_lit(&mut out, "}");
            assert(out@ =~= enc_remote(m.deep_view()));
        },
    }
    out
}

// ---------------------------------------------------------------------------
// Decoding
// ---------------------------------------------------------------------------

/// The message a parsed inbound frame denotes, if any.
pub open spec fn remote_of_json(j: JsonV) -> Option<RemoteMessageV> {
    match j {
        JsonV::Obj(ms) => match olook(ms, ("type").spec_bytes()) {
            Some(JsonV::Str(t)) => {
                if t == ("auth_success").spec_bytes() {
                    match olook(ms, ("runnerId").spec_bytes()) {
                        Some(JsonV::Str(rid)) => Some(
                            RemoteMessageV::AuthSuccess { runner_id: rid },
                        ),
                        _ => None,
                    }
                } else if t == ("chat_request").spec_bytes() {
                    chat_request_of(ms)
                } else {
                    None
                }
            },
            _ => None,
        },
        _ => None,
    }
}

pub open spec fn chat_request_of(ms: Seq<(Seq<u8>, JsonV)>) -> Option<RemoteMessageV> {
    match (
        olook(ms, ("requestId").spec_bytes()),
        olook(ms, ("model").spec_bytes()),
        olook(ms, ("messages").spec_bytes()),
        olook(ms, ("options").spec_bytes()),
    ) {
        (Some(JsonV::Str(rid)), Some(JsonV::Str(model)), Some(JsonV::Arr(items)), Some(oj)) => {
            match (msgs_of(items), opts_of(oj)) {
                (Some(messages), Some(options)) => Some(
                    RemoteMessageV::ChatRequest {
                        request_id: rid,
                        model: model,
                        messages: messages,
                        options: options,
                    },
                ),
                _ => None,
            }
        },
        _ => None,
    }
}

/// One conversation turn from its JSON object.
pub open spec fn msg_of(j: JsonV) -> Option<ChatMessageV> {
    match j {
        JsonV::Obj(ms) => match (
            olook(ms, ("role").spec_bytes()),
            olook(ms, ("content").spec_bytes()),
        ) {
            (Some(JsonV::Str(role)), Some(JsonV::Str(content))) => Some(
                ChatMessageV { role: role, content: content },
            ),
            _ => None,
        },
        _ => None,
    }
}

/// All conversation turns, in order; fails if any element is malformed.
pub open spec fn msgs_of(items: Seq<JsonV>) -> Option<Seq<ChatMessageV>>
    decreases items.len(),
{
    if items.len() == 0 {
        Some(Seq::empty())
    } else {
        match (msgs_of(items.drop_last()), msg_of(items.last())) {
            (Some(rest), Some(m)) => Some(rest.push(m)),
            _ => None,
        }
    }
}

proof fn lemma_msgs_of_prefix_none(items: Seq<JsonV>, k: int)
    requires
        0 <= k <= items.len(),
        msgs_of(items.take(k)) is None,
    ensures
        msgs_of(items) is None,
    decreases items.len() - k,
{
    if k == items.len() {
        assert(items.take(k) =~= items);
    } else {
        assert(items.take(k + 1).drop_last() =~= items.take(k));
        lemma_msgs_of_prefix_none(items, k + 1);
    }
}

pub open spec fn opt_num_entry(o: Option<JsonV>) -> Option<Option<Seq<u8>>> {
    match o {
        None => Some(None),
        Some(JsonV::Null) => Some(None),
        Some(JsonV::Num(t)) => Some(Some(t)),
        _ => None,
    }
}

pub open spec fn opt_i32_entry(o: Option<JsonV>) -> Option<Option<i32>> {
    match o {
        None => Some(None),
        Some(JsonV::Null) => Some(None),
        Some(JsonV::Num(t)) => match i32_of_num(t) {
            Some(v) => Some(Some(v)),
            None => None,
        },
        _ => None,
    }
}

pub open spec fn opt_bool_entry(o: Option<JsonV>) -> Option<Option<bool>> {
    match o {
        None => Some(None),
        Some(JsonV::Null) => Some(None),
        Some(JsonV::Bool(b)) => Some(Some(b)),
        _ => None,
    }
}

pub open spec fn opt_str_entry(o: Option<JsonV>) -> Option<Option<Seq<u8>>> {
    match o {
        None => Some(None),
        Some(JsonV::Null) => Some(None),
        Some(JsonV::Str(s)) => Some(Some(s)),
        _ => None,
    }
}

/// The options bag from its JSON value; an entry of the wrong shape fails
/// the whole bag, as the original decoder did.
pub open spec fn opts_of(j: JsonV) -> Option<ChatOptionsV> {
    match j {
        JsonV::Obj(ms) => {
            match (
                opt_num_entry(olook(ms, ("temperature").spec_bytes())),
                opt_i32_entry(olook(ms, ("max_tokens").spec_bytes())),
                opt_bool_entry(olook(ms, ("stream").spec_bytes())),
            ) {
                (Some(t), Some(mt), Some(st)) => Some(
                    ChatOptionsV { temperature: t, max_tokens: mt, stream: st },
                ),
                _ => None,
            }
        },
        _ => None,
    }
}

/// What an inbound text frame decodes to: a parsed document that carries a
/// recognized message.  Anything else is dropped, not an error.
pub open spec fn dec_remote(s: Seq<u8>) -> Option<RemoteMessageV> {
    match sp_json(s) {
        Some(j) => remote_of_json(j),
        None => None,
    }
}

/// Compares a byte string with an ASCII literal.
pub fn bytes_eq_lit(b: &[u8], s: &str) -> (r: bool)
    ensures
        r == (b@ == s.spec_bytes()),
{
    let sb = s.as_bytes();
    if b.len() != sb.len() {
        return false;
    }
    let mut k: usize = 0;
    while k < b.len()
        invariant
            k <= b@.len(),
            b@.len() == sb@.len(),
            sb@ == s.spec_bytes(),
            forall|i: int| 0 <= i < k ==> b@[i] == sb@[i],
        decreases b@.len() - k,
    {
        if b[k] != sb[k] {
            return false;
        }
        k = k + 1;
    }
    assert(b@ =~= sb@);
    true
}

/// First value bound to a key among an object's members, mirroring [`olook`].
pub fn obj_get<'a>(ms: &'a Vec<(Vec<u8>, Json)>, key: &str) -> (r: Option<&'a Json>)
    ensures
        match r {
            Some(j) => olook(ms.deep_view(), key.spec_bytes()) == Some(j.deep_view()),
            None => olook(ms.deep_view(), key.spec_bytes()) is None,
        },
{
    let mut k: usize = 0;
    assert(ms.deep_view().skip(0) =~= ms.deep_view());
    while k < ms.len()
        invariant
            k <= ms@.len(),
            olook(ms.deep_view(), key.spec_bytes()) == olook(
                ms.deep_view().skip(k as int),
                key.spec_bytes(),
            ),
        decreases ms@.len() - k,
    {
        let hit = bytes_eq_lit(ms[k].0.as_slice(), key);
        proof {
            assert(ms.deep_view().skip(k as int)[0] == ms.deep_view()[k as int]);
            assert(ms.deep_view()[k as int].0 =~= ms@[k as int].0@);
        }
        if hit {
            return Some(&ms[k].1);
        }
        proof {
            assert(ms.deep_view().skip(k as int).drop_first() =~= ms.deep_view().skip(k as int + 1));
        }
        k = k + 1;
    }
    proof {
        assert(ms.deep_view().skip(ms@.len() as int) =~= Seq::<(Seq<u8>, JsonV)>::empty());
    }
    None
}

fn msgs_from(items: &Vec<Json>) -> (r: Option<Vec<ChatMessage>>)
    ensures
        match r {
            Some(v) => msgs_of(items.deep_view()) == Some(v.deep_view()),
            None => msgs_of(items.deep_view()) is None,
        },
{
    let mut out: Vec<ChatMessage> = Vec::new();
    assert(out.deep_view() =~= Seq::<ChatMessageV>::empty());
    assert(items.deep_view().take(0) =~= Seq::<JsonV>::empty());
    let mut k: usize = 0;
    while k < items.len()
        invariant
            k <= items@.len(),
            msgs_of(items.deep_view().take(k as int)) == Some(out.deep_view()),
        decreases items@.len() - k,
    {
        let ghost dv = items.deep_view();
        let ghost pre = out.deep_view();
        let item = &items[k];
        proof {
            assert(dv[k as int] == items@[k as int].deep_view());
            assert(dv.take(k as int + 1).drop_last() =~= dv.take(k as int));
            assert(dv.take(k as int + 1).last() == dv[k as int]);
        }
        match item {
            Json::Obj(mms) => {
                proof {
                    crate::json::lemma_obj_deep_view(*mms);
                }
                let role_j = obj_get(mms, "role");
                let content_j = obj_get(mms, "content");
                match (role_j, content_j) {
                    (Some(Json::Str(role)), Some(Json::Str(content))) => {
                        out.push(
                            ChatMessage { role: copy_bytes(role), content: copy_bytes(content) },
                        );
                        proof {
                            assert(msg_of(dv[k as int]) == Some(
                                ChatMessageV { role: role@, content: content@ },
                            ));
                            assert(out.deep_view() =~= pre.push(
                                ChatMessageV { role: role@, content: content@ },
                            ));
                        }
                    },
                    _ => {
                        proof {
                            assert(msg_of(dv[k as int]) is None);
                            assert(msgs_of(dv.take(k as int + 1)) is None);
                            lemma_msgs_of_prefix_none(dv, k as int + 1);
                        }
                        return None;
                    },
                }
            },
            _ => {
                proof {
                    assert(msg_of(dv[k as int]) is None);
                    assert(msgs_of(dv.take(k as int + 1)) is None);
                    lemma_msgs_of_prefix_none(dv, k as int + 1);
                }
                return None;
            },
        }
        k = k + 1;
    }
    assert(items.deep_view().take(items@.len() as int) =~= items.deep_view());
    Some(out)
}

fn opts_from(j: &Json) -> (r: Option<ChatOptions>)
    ensures
        match r {
            Some(o) => opts_of(j.deep_view()) == Some(o.deep_view()),
            None => opts_of(j.deep_view()) is None,
        },
{
    let ms = match j {
        Json::Obj(ms) => ms,
        _ => {
            return None;
        },
    };
    proof {
        crate::json::lemma_obj_deep_view(*ms);
    }
    let temperature: Option<Vec<u8>> = match obj_get(ms, "temperature") {
        None => None,
        Some(Json::Null) => None,
        Some(Json::Num(t)) => Some(copy_bytes(t)),
        _ => {
            return None;
        },
    };
    let max_tokens: Option<i32> = match obj_get(ms, "max_tokens") {
        None => None,
        Some(Json::Null) => None,
        Some(Json::Num(t)) => {
            match parse_i32_token(t.as_slice()) {
                Some(v) => Some(v),
                None => {
                    return None;
                },
            }
        },
        _ => {
            return None;
        },
    };
    let stream: Option<bool> = match obj_get(ms, "stream") {
        None => None,
        Some(Json::Null) => None,
        Some(Json::Bool(b)) => Some(*b),
        _ => {
            return None;
        },
    };
    Some(ChatOptions { temperature, max_tokens, stream })
}

/// Decodes one inbound text frame, exactly [`dec_remote`]: a recognized
/// message, or nothing for a frame to be dropped.
pub fn decode_remote(frame: &[u8]) -> (r: Option<RemoteMessage>)
    ensures
        match r {
            Some(m) => dec_remote(frame@) == Some(m.deep_view()),
            None => dec_remote(frame@) is None,
        },
{
    let parsed = parse_json(frame);
    let j = match parsed {
        Some(j) => j,
        None => {
            return None;
        },
    };
    let ghost jv = j.deep_view();
    let ms = match j {
        Json::Obj(ms) => ms,
        _ => {
            return None;
        },
    };
    proof {
        crate::json::lemma_obj_deep_view(ms);
        assert(jv == JsonV::Obj(ms.deep_view()));
    }
    let t = match obj_get(&ms, "type") {
        Some(Json::Str(t)) => t,
        _ => {
            return None;
        },
    };
    if bytes_eq_lit(t.as_slice(), "auth_success") {
        match obj_get(&ms, "runnerId") {
            Some(Json::Str(rid)) => Some(RemoteMessage::AuthSuccess { runner_id: copy_bytes(rid) }),
            _ => None,
        }
    } else if bytes_eq_lit(t.as_slice(), "chat_request") {
        let rid = match obj_get(&ms, "requestId") {
            Some(Json::Str(v)) => v,
            _ => {
                return None;
            },
        };
        let model = match obj_get(&ms, "model") {
            Some(Json::Str(v)) => v,
            _ => {
                return None;
            },
        };
        let items = match obj_get(&ms, "messages") {
            Some(Json::Arr(v)) => v,
            _ => {
                return None;
            },
        };
        proof {
            crate::json::lemma_arr_deep_view(*items);
        }
        let oj = match obj_get(&ms, "options") {
            Some(v) => v,
            None => {
                return None;
            },
        };
        let messages = match msgs_from(items) {
            Some(v) => v,
            None => {
                return None;
            },
        };
        let options = match opts_from(oj) {
            Some(v) => v,
            None => {
                return None;
            },
        };
        Some(
            RemoteMessage::ChatRequest {
                request_id: copy_bytes(rid),
                model: copy_bytes(model),
                messages,
                options,
            },
        )
    } else {
        None
    }
}


/// Token counts from their JSON object: both counters are required.
pub open spec fn usage_of(j: JsonV) -> Option<Usage> {
    match j {
        JsonV::Obj(ms) => match (
            olook(ms, ("inputTokens").spec_bytes()),
            olook(ms, ("outputTokens").spec_bytes()),
        ) {
            (Some(JsonV::Num(a)), Some(JsonV::Num(b))) => match (i32_of_num(a), i32_of_num(b)) {
                (Some(x), Some(y)) => Some(Usage { input_tokens: x, output_tokens: y }),
                _ => None,
            },
            _ => None,
        },
        _ => None,
    }
}

/// All strings of an array; fails if any element is not a string.
pub open spec fn strs_of(items: Seq<JsonV>) -> Option<Seq<Seq<u8>>>
    decreases items.len(),
{
    if items.len() == 0 {
        Some(Seq::empty())
    } else {
        match (strs_of(items.drop_last()), items.last()) {
            (Some(rest), JsonV::Str(s)) => Some(rest.push(s)),
            _ => None,
        }
    }
}

proof fn lemma_strs_of_prefix_none(items: Seq<JsonV>, k: int)
    requires
        0 <= k <= items.len(),
        strs_of(items.take(k)) is None,
    ensures
        strs_of(items) is None,
    decreases items.len() - k,
{
    if k == items.len() {
        assert(items.take(k) =~= items);
    } else {
        assert(items.take(k + 1).drop_last() =~= items.take(k));
        lemma_strs_of_prefix_none(items, k + 1);
    }
}

pub open spec fn chat_response_of(ms: Seq<(Seq<u8>, JsonV)>) -> Option<LocalMessageV> {
    match olook(ms, ("requestId").spec_bytes()) {
        Some(JsonV::Str(rid)) => {
            let usage_entry = match olook(ms, ("usage").spec_bytes()) {
                None => Some(None),
                Some(JsonV::Null) => Some(None),
                Some(u) => match usage_of(u) {
                    Some(v) => Some(Some(v)),
                    None => None,
                },
            };
            match (
                opt_str_entry(olook(ms, ("content").spec_bytes())),
                opt_str_entry(olook(ms, ("chunk").spec_bytes())),
                opt_bool_entry(olook(ms, ("done").spec_bytes())),
                opt_str_entry(olook(ms, ("error").spec_bytes())),
                usage_entry,
            ) {
                (Some(content), Some(chunk), Some(done), Some(error), Some(usage)) => Some(
                    LocalMessageV::ChatResponse {
                        request_id: rid,
                        content,
                        chunk,
                        done,
                        error,
                        usage,
                    },
                ),
                _ => None,
            }
        },
        _ => None,
    }
}

pub open spec fn status_of(ms: Seq<(Seq<u8>, JsonV)>) -> Option<LocalMessageV> {
    match olook(ms, ("status").spec_bytes()) {
        Some(JsonV::Str(st)) => {
            let models_entry = match olook(ms, ("models").spec_bytes()) {
                None => Some(None),
                Some(JsonV::Null) => Some(None),
                Some(JsonV::Arr(items)) => match strs_of(items) {
                    Some(list) => Some(Some(list)),
                    None => None,
                },
                _ => None,
            };
            match (models_entry, opt_str_entry(olook(ms, ("deviceName").spec_bytes()))) {
                (Some(models), Some(device_name)) => Some(
                    LocalMessageV::Status { status: st, models, device_name },
                ),
                _ => None,
            }
        },
        _ => None,
    }
}

/// The message a parsed outbound frame denotes, if any.
pub open spec fn local_of_json(j: JsonV) -> Option<LocalMessageV> {
    match j {
        JsonV::Obj(ms) => match olook(ms, ("type").spec_bytes()) {
            Some(JsonV::Str(t)) => {
                if t == ("auth").spec_bytes() {
                    match olook(ms, ("token").spec_bytes()) {
                        Some(JsonV::Str(token)) => Some(LocalMessageV::Auth { token }),
                        _ => None,
                    }
                } else if t == ("chat_response").spec_bytes() {
                    chat_response_of(ms)
                } else if t == ("status").spec_bytes() {
                    status_of(ms)
                } else {
                    None
                }
            },
            _ => None,
        },
        _ => None,
    }
}

/// What an outbound text frame decodes to.
pub open spec fn dec_local(s: Seq<u8>) -> Option<LocalMessageV> {
    match sp_json(s) {
        Some(j) => local_of_json(j),
        None => None,
    }
}


/// Law: an authentication message survives the codec round trip: encoding
/// it to its text frame and decoding that frame yields the message again.
#[verifier::rlimit(100)]
#[verifier::spinoff_prover]
pub proof fn lemma_auth_round_trip(token: Seq<u8>)
    ensures
        dec_local(enc_local(LocalMessageV::Auth { token })) == Some(
            LocalMessageV::Auth { token },
        ),
{
    broadcast use vstd::string::is_ascii_spec_bytes;

    reveal_strlit("{\"type\":\"auth\",\"token\":");
    reveal_strlit("}");
    reveal_strlit("type");
    reveal_strlit("auth");
    reveal_strlit("token");
    assert(("{\"type\":\"auth\",\"token\":").is_ascii());
    assert(("}").is_ascii());
    assert(("type").is_ascii());
    assert(("auth").is_ascii());
    assert(("token").is_ascii());
    let pre = ("{\"type\":\"auth\",\"token\":").spec_bytes();
    let key1 = ("type").spec_bytes();
    let val1 = ("auth").spec_bytes();
    let key2 = ("token").spec_bytes();
    let w = enc_local(LocalMessageV::Auth { token });
    assert(pre.len() == 23);
    assert(w == pre + jstr(token) + ("}").spec_bytes());
    let n = w.len() as int;
    assert(n == 23 + (jstr(token).len() + 1));
    assert(jstr(token).len() == esc(token).len() + 2);
    let close_at = 23 + jstr(token).len() as int - 1 + 1;
    assert(w[n - 1] == '}' as u8);
    assert(forall|k: int| 0 <= k < 23 ==> #[trigger] w[k] == pre[k]);
    assert(key1.len() == 4 && val1.len() == 4 && key2.len() == 5);
    // the frame byte by byte, over the literal prefix
    assert(w[0] == '{' as u8 && w[1] == '"' as u8);
    assert(w[2] == 't' as u8 && w[3] == 'y' as u8 && w[4] == 'p' as u8 && w[5] == 'e' as u8);
    assert(w[6] == '"' as u8 && w[7] == ':' as u8 && w[8] == '"' as u8);
    assert(w[9] == 'a' as u8 && w[10] == 'u' as u8 && w[11] == 't' as u8 && w[12] == 'h' as u8);
    assert(w[13] == '"' as u8 && w[14] == ',' as u8 && w[15] == '"' as u8);
    assert(w[16] == 't' as u8 && w[17] == 'o' as u8 && w[18] == 'k' as u8 && w[19] == 'e' as u8
        && w[20] == 'n' as u8);
    assert(w[21] == '"' as u8 && w[22] == ':' as u8);
    assert(w[23] == '"' as u8);
    // the first key parses back as `type`
    assert(forall|k: int| 0 <= k < key1.len() ==> 32 <= #[trigger] key1[k] && key1[k]
        != '"' as u8 && key1[k] != '\\' as u8);
    crate::json::lemma_esc_plain(key1);
    assert(w.skip(2) =~= key1 + seq!['"' as u8] + w.skip(7));
    crate::json::lemma_escaped_string_parses(w, 2, key1, w.skip(7), Seq::empty());
    assert(crate::json::sp_str_body(w, 2, Seq::empty()) == Some((key1, 7int)));
    // the first value parses back as `auth`
    assert(forall|k: int| 0 <= k < val1.len() ==> 32 <= #[trigger] val1[k] && val1[k]
        != '"' as u8 && val1[k] != '\\' as u8);
    crate::json::lemma_esc_plain(val1);
    assert(w.skip(9) =~= val1 + seq!['"' as u8] + w.skip(14));
    crate::json::lemma_escaped_string_parses(w, 9, val1, w.skip(14), Seq::empty());
    assert(crate::json::sp_ws(w, 8) == 8);
    assert(crate::json::sp_value(w, 8) == Some((JsonV::Str(val1), 14int)));
    // the second key parses back as `token`
    assert(forall|k: int| 0 <= k < key2.len() ==> 32 <= #[trigger] key2[k] && key2[k]
        != '"' as u8 && key2[k] != '\\' as u8);
    crate::json::lemma_esc_plain(key2);
    assert(w.skip(16) =~= key2 + seq!['"' as u8] + w.skip(22));
    crate::json::lemma_escaped_string_parses(w, 16, key2, w.skip(22), Seq::empty());
    assert(crate::json::sp_str_body(w, 16, Seq::empty()) == Some((key2, 22int)));
    // the token itself parses back unchanged
    assert(w.skip(24) =~= esc(token) + seq!['"' as u8] + w.skip(close_at));
    crate::json::lemma_escaped_string_parses(w, 24, token, w.skip(close_at), Seq::empty());
    assert(crate::json::sp_str_body(w, 24, Seq::empty()) == Some((token, close_at)));
    assert(crate::json::sp_ws(w, 23) == 23);
    assert(crate::json::sp_value(w, 23) == Some((JsonV::Str(token), close_at)));
    // the object assembles from its two members
    assert(w[close_at] == '}' as u8);
    assert(crate::json::sp_ws(w, close_at) == close_at);
    let acc1: Seq<(Seq<u8>, JsonV)> = Seq::empty().push((key1, JsonV::Str(val1)));
    assert(crate::json::sp_ws(w, 15) == 15);
    assert(olook(Seq::<(Seq<u8>, JsonV)>::empty(), key1) is None);
    assert(key1[1] == 'y' as u8 && key2[1] == 'o' as u8);
    assert(key1 != key2);
    assert(acc1.drop_first() =~= Seq::<(Seq<u8>, JsonV)>::empty());
    assert(acc1.len() == 1 && acc1[0] == (key1, JsonV::Str(val1)));
    assert(olook(Seq::<(Seq<u8>, JsonV)>::empty(), key2) is None);
    assert(olook(acc1, key2) is None);
    assert(crate::json::sp_obj_items(w, 15, acc1) == Some(
        (acc1.push((key2, JsonV::Str(token))), close_at + 1),
    ));
    assert(crate::json::sp_ws(w, 14) == 14);
    assert(crate::json::sp_ws(w, 7) == 7);
    assert(crate::json::sp_ws(w, 1) == 1);
    let members = acc1.push((key2, JsonV::Str(token)));
    assert(crate::json::sp_obj_items(w, 1, Seq::empty()) == Some((members, close_at + 1)));
    assert(crate::json::sp_ws(w, 0) == 0);
    assert(crate::json::sp_value(w, 0) == Some((JsonV::Obj(members), close_at + 1)));
    assert(close_at + 1 == n);
    assert(crate::json::sp_ws(w, n) == n);
    assert(sp_json(w) == Some(JsonV::Obj(members)));
    // and the member lookup finds the tag and the token
    assert(members[0].0 == key1);
    assert(olook(members, ("type").spec_bytes()) == Some(JsonV::Str(val1)));
    assert(key1[1] != key2[1]);
    assert(key1 != ("token").spec_bytes());
    let m2 = members.drop_first();
    assert(m2.len() == 1);
    assert(m2[0] == (key2, JsonV::Str(token)));
    assert(m2[0].0 == ("token").spec_bytes());
    assert(m2.drop_first().len() == 0);
    assert(olook(m2, ("token").spec_bytes()) == Some(JsonV::Str(token)));
    assert(olook(members, ("token").spec_bytes()) == olook(m2, ("token").spec_bytes()));
    assert(olook(members, ("token").spec_bytes()) == Some(JsonV::Str(token)));
    assert(local_of_json(JsonV::Obj(members)) == Some(LocalMessageV::Auth { token }));
}


/// Law: an authentication acknowledgement survives the codec round trip:
/// encoding it to its text frame and decoding that frame yields the message
/// again, whatever the runner identifier holds.
#[verifier::rlimit(100)]
#[verifier::spinoff_prover]
pub proof fn lemma_auth_success_round_trip(runner_id: Seq<u8>)
    ensures
        dec_remote(enc_remote(RemoteMessageV::AuthSuccess { runner_id })) == Some(
            RemoteMessageV::AuthSuccess { runner_id },
        ),
{
    broadcast use vstd::string::is_ascii_spec_bytes;

    reveal_strlit("{\"type\":\"auth_success\",\"runnerId\":");
    reveal_strlit("}");
    reveal_strlit("type");
    reveal_strlit("auth_success");
    reveal_strlit("runnerId");
    assert(("{\"type\":\"auth_success\",\"runnerId\":").is_ascii());
    assert(("}").is_ascii());
    assert(("type").is_ascii());
    assert(("auth_success").is_ascii());
    assert(("runnerId").is_ascii());
    let pre = ("{\"type\":\"auth_success\",\"runnerId\":").spec_bytes();
    let key1 = ("type").spec_bytes();
    let val1 = ("auth_success").spec_bytes();
    let key2 = ("runnerId").spec_bytes();
    let w = enc_remote(RemoteMessageV::AuthSuccess { runner_id });
    assert(pre.len() == 34);
    assert(w == pre + jstr(runner_id) + ("}").spec_bytes());
    let n = w.len() as int;
    assert(n == 34 + (jstr(runner_id).len() + 1));
    assert(jstr(runner_id).len() == esc(runner_id).len() + 2);
    let close_at = 34 + jstr(runner_id).len() as int - 1 + 1;
    assert(w[n - 1] == '}' as u8);
    assert(forall|k: int| 0 <= k < 34 ==> #[trigger] w[k] == pre[k]);
    assert(key1.len() == 4 && val1.len() == 12 && key2.len() == 8);
    assert(w[0] == '{' as u8 && w[1] == '"' as u8);
    assert(w[2] == 't' as u8 && w[3] == 'y' as u8 && w[4] == 'p' as u8 && w[5] == 'e' as u8);
    assert(w[6] == '"' as u8 && w[7] == ':' as u8 && w[8] == '"' as u8);
    assert(w[21] == '"' as u8 && w[22] == ',' as u8 && w[23] == '"' as u8);
    assert(w[32] == '"' as u8 && w[33] == ':' as u8 && w[34] == '"' as u8);
    // the first key parses back as `type`
    assert(forall|k: int| 0 <= k < key1.len() ==> 32 <= #[trigger] key1[k] && key1[k]
        != '"' as u8 && key1[k] != '\\' as u8);
    crate::json::lemma_esc_plain(key1);
    assert(w.skip(2) =~= key1 + seq!['"' as u8] + w.skip(7));
    crate::json::lemma_escaped_string_parses(w, 2, key1, w.skip(7), Seq::empty());
    assert(crate::json::sp_str_body(w, 2, Seq::empty()) == Some((key1, 7int)));
    // the tag parses back as `auth_success`
    assert(forall|k: int| 0 <= k < val1.len() ==> 32 <= #[trigger] val1[k] && val1[k]
        != '"' as u8 && val1[k] != '\\' as u8);
    crate::json::lemma_esc_plain(val1);
    assert(w.skip(9) =~= val1 + seq!['"' as u8] + w.skip(22));
    crate::json::lemma_escaped_string_parses(w, 9, val1, w.skip(22), Seq::empty());
    assert(crate::json::sp_ws(w, 8) == 8);
    assert(crate::json::sp_value(w, 8) == Some((JsonV::Str(val1), 22int)));
    // the second key parses back as `runnerId`
    assert(forall|k: int| 0 <= k < key2.len() ==> 32 <= #[trigger] key2[k] && key2[k]
        != '"' as u8 && key2[k] != '\\' as u8);
    crate::json::lemma_esc_plain(key2);
    assert(w.skip(24) =~= key2 + seq!['"' as u8] + w.skip(33));
    crate::json::lemma_escaped_string_parses(w, 24, key2, w.skip(33), Seq::empty());
    assert(crate::json::sp_str_body(w, 24, Seq::empty()) == Some((key2, 33int)));
    // the runner identifier parses back unchanged
    assert(w.skip(35) =~= esc(runner_id) + seq!['"' as u8] + w.skip(close_at));
    crate::json::lemma_escaped_string_parses(w, 35, runner_id, w.skip(close_at), Seq::empty());
    assert(crate::json::sp_str_body(w, 35, Seq::empty()) == Some((runner_id, close_at)));
    assert(crate::json::sp_ws(w, 34) == 34);
    assert(crate::json::sp_value(w, 34) == Some((JsonV::Str(runner_id), close_at)));
    // the object assembles from its two members
    assert(w[close_at] == '}' as u8);
    assert(crate::json::sp_ws(w, close_at) == close_at);
    let acc1: Seq<(Seq<u8>, JsonV)> = Seq::empty().push((key1, JsonV::Str(val1)));
    assert(crate::json::sp_ws(w, 23) == 23);
    assert(olook(Seq::<(Seq<u8>, JsonV)>::empty(), key1) is None);
    assert(key1[0] == 't' as u8 && key2[0] == 'r' as u8);
    assert(key1 != key2);
    assert(acc1.drop_first() =~= Seq::<(Seq<u8>, JsonV)>::empty());
    assert(acc1.len() == 1 && acc1[0] == (key1, JsonV::Str(val1)));
    assert(olook(Seq::<(Seq<u8>, JsonV)>::empty(), key2) is None);
    assert(olook(acc1, key2) is None);
    assert(crate::json::sp_obj_items(w, 23, acc1) == Some(
        (acc1.push((key2, JsonV::Str(runner_id))), close_at + 1),
    ));
    assert(crate::json::sp_ws(w, 22) == 22);
    assert(crate::json::sp_ws(w, 7) == 7);
    assert(crate::json::sp_ws(w, 1) == 1);
    let members = acc1.push((key2, JsonV::Str(runner_id)));
    assert(crate::json::sp_obj_items(w, 1, Seq::empty()) == Some((members, close_at + 1)));
    assert(crate::json::sp_ws(w, 0) == 0);
    assert(crate::json::sp_value(w, 0) == Some((JsonV::Obj(members), close_at + 1)));
    assert(close_at + 1 == n);
    assert(crate::json::sp_ws(w, n) == n);
    assert(sp_json(w) == Some(JsonV::Obj(members)));
    // and the member lookup finds the tag and the identifier
    assert(members[0].0 == key1);
    assert(olook(members, ("type").spec_bytes()) == Some(JsonV::Str(val1)));
    assert(val1 == ("auth_success").spec_bytes());
    assert(key1[0] != key2[0]);
    assert(key1 != ("runnerId").spec_bytes());
    let m2 = members.drop_first();
    assert(m2.len() == 1);
    assert(m2[0] == (key2, JsonV::Str(runner_id)));
    assert(m2[0].0 == ("runnerId").spec_bytes());
    assert(olook(m2, ("runnerId").spec_bytes()) == Some(JsonV::Str(runner_id)));
    assert(olook(members, ("runnerId").spec_bytes()) == olook(m2, ("runnerId").spec_bytes()));
    assert(olook(members, ("runnerId").spec_bytes()) == Some(JsonV::Str(runner_id)));
    assert(val1 != ("chat_request").spec_bytes() || val1 == ("auth_success").spec_bytes());
    assert(remote_of_json(JsonV::Obj(members)) == Some(
        RemoteMessageV::AuthSuccess { runner_id },
    ));
}


fn strs_from(items: &Vec<Json>) -> (r: Option<Vec<Vec<u8>>>)
    ensures
        match r {
            Some(v) => strs_of(items.deep_view()) == Some(v.deep_view()),
            None => strs_of(items.deep_view()) is None,
        },
{
    let mut out: Vec<Vec<u8>> = Vec::new();
    assert(out.deep_view() =~= Seq::<Seq<u8>>::empty());
    assert(items.deep_view().take(0) =~= Seq::<JsonV>::empty());
    let mut k: usize = 0;
    while k < items.len()
        invariant
            k <= items@.len(),
            strs_of(items.deep_view().take(k as int)) == Some(out.deep_view()),
        decreases items@.len() - k,
    {
        let ghost dv = items.deep_view();
        let ghost pre = out.deep_view();
        proof {
            assert(dv[k as int] == items@[k as int].deep_view());
            assert(dv.take(k as int + 1).drop_last() =~= dv.take(k as int));
            assert(dv.take(k as int + 1).last() == dv[k as int]);
        }
        match &items[k] {
            Json::Str(sv) => {
                out.push(copy_bytes(sv));
                proof {
                    assert(out.deep_view() =~~= pre.push(sv@));
                }
            },
            _ => {
                proof {
                    assert(strs_of(dv.take(k as int + 1)) is None);
                    lemma_strs_of_prefix_none(dv, k as int + 1);
                }
                return None;
            },
        }
        k = k + 1;
    }
    assert(items.deep_view().take(items@.len() as int) =~= items.deep_view());
    Some(out)
}

/// Decodes one outbound text frame, exactly [`dec_local`].
pub fn decode_local(frame: &[u8]) -> (r: Option<LocalMessage>)
    ensures
        match r {
            Some(m) => dec_local(frame@) == Some(m.deep_view()),
            None => dec_local(frame@) is None,
        },
{
    let parsed = parse_json(frame);
    let j = match parsed {
        Some(j) => j,
        None => {
            return None;
        },
    };
    let ghost jv = j.deep_view();
    let ms = match j {
        Json::Obj(ms) => ms,
        _ => {
            return None;
        },
    };
    proof {
        crate::json::lemma_obj_deep_view(ms);
        assert(jv == JsonV::Obj(ms.deep_view()));
    }
    let t = match obj_get(&ms, "type") {
        Some(Json::Str(t)) => t,
        _ => {
            return None;
        },
    };
    if bytes_eq_lit(t.as_slice(), "auth") {
        match obj_get(&ms, "token") {
            Some(Json::Str(token)) => Some(LocalMessage::Auth { token: copy_bytes(token) }),
            _ => None,
        }
    } else if bytes_eq_lit(t.as_slice(), "chat_response") {
        let rid = match obj_get(&ms, "requestId") {
            Some(Json::Str(v)) => v,
            _ => {
                return None;
            },
        };
        let content: Option<Vec<u8>> = match obj_get(&ms, "content") {
            None => None,
            Some(Json::Null) => None,
            Some(Json::Str(v)) => Some(copy_bytes(v)),
            _ => {
                return None;
            },
        };
        let chunk: Option<Vec<u8>> = match obj_get(&ms, "chunk") {
            None => None,
            Some(Json::Null) => None,
            Some(Json::Str(v)) => Some(copy_bytes(v)),
            _ => {
                return None;
            },
        };
        let done: Option<bool> = match obj_get(&ms, "done") {
            None => None,
            Some(Json::Null) => None,
            Some(Json::Bool(v)) => Some(*v),
            _ => {
                return None;
            },
        };
        let error: Option<Vec<u8>> = match obj_get(&ms, "error") {
            None => None,
            Some(Json::Null) => None,
            Some(Json::Str(v)) => Some(copy_bytes(v)),
            _ => {
                return None;
            },
        };
        let usage: Option<Usage> = match obj_get(&ms, "usage") {
            None => None,
            Some(Json::Null) => None,
            Some(u) => {
                let mm = match u {
                    Json::Obj(mm) => mm,
                    _ => {
                        return None;
                    },
                };
                proof {
                    crate::json::lemma_obj_deep_view(*mm);
                }
                match (obj_get(mm, "inputTokens"), obj_get(mm, "outputTokens")) {
                    (Some(Json::Num(a)), Some(Json::Num(b))) => {
                        match (parse_i32_token(a.as_slice()), parse_i32_token(b.as_slice())) {
                            (Some(x), Some(y)) => Some(
                                Usage { input_tokens: x, output_tokens: y },
                            ),
                            _ => {
                                return None;
                            },
                        }
                    },
                    _ => {
                        return None;
                    },
                }
            },
        };
        Some(
            LocalMessage::ChatResponse {
                request_id: copy_bytes(rid),
                content,
                chunk,
                done,
                error,
                usage,
            },
        )
    } else if bytes_eq_lit(t.as_slice(), "status") {
        let st = match obj_get(&ms, "status") {
            Some(Json::Str(v)) => v,
            _ => {
                return None;
            },
        };
        let models: Option<Vec<Vec<u8>>> = match obj_get(&ms, "models") {
            None => None,
            Some(Json::Null) => None,
            Some(Json::Arr(items)) => {
                proof {
                    crate::json::lemma_arr_deep_view(*items);
                }
                match strs_from(items) {
                    Some(list) => Some(list),
                    None => {
                        return None;
                    },
                }
            },
            _ => {
                return None;
            },
        };
        let device_name: Option<Vec<u8>> = match obj_get(&ms, "deviceName") {
            None => None,
            Some(Json::Null) => None,
            Some(Json::Str(v)) => Some(copy_bytes(v)),
            _ => {
                return None;
            },
        };
        Some(LocalMessage::Status { status: copy_bytes(st), models, device_name })
    } else {
        None
    }
}

} // verus!
