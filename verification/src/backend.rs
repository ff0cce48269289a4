//! The inference backend client's logic: request bodies, reachability and
//! response interpretation.
//!
//! The backend is a local HTTP service.  The driver performs the transport;
//! this module builds the request body for a chat completion, classifies the
//! HTTP status, and reads the JSON bodies of both the model listing and the
//! chat completion.  A backend failure is scoped to the one request that
//! met it: it becomes an error text, never a session failure.
use vstd::prelude::*;
use vstd::string::StringSliceAdditionalSpecFns;

use crate::json::{
    i32_of_num, jstr, olook, parse_i32_token, parse_json, push_dec_i64, sp_json, Json,
    JsonV,
};
use crate::wire::{
    enc_msg_items, int_or_null, num_or_null, push_msg_items, ChatMessage, ChatMessageV,
    ChatOptions, ChatOptionsV, Usage, obj_get,
};
use crate::copy_bytes;
use crate::push_lit;

verus! {

/// Whether a reachability probe succeeded: the backend answered at all, and
/// with a success status.  Transport failure is `false`, never an error.
pub open spec fn probe_ok(status: Option<u16>) -> bool {
    match status {
        Some(c) => 200 <= c < 300,
        None => false,
    }
}

/// Classifies a probe's outcome: `None` stands for any transport failure,
/// `Some` for an HTTP answer with its status code.  Exactly [`probe_ok`]:
/// an unreachable backend yields `false`, and this never fails.
pub fn probe_outcome(status: Option<u16>) -> (r: bool)
    ensures
        r == probe_ok(status),
{
    match status {
        Some(c) => 200 <= c && c < 300,
        None => false,
    }
}

/// The exact body of a chat completion request: always one-shot, never
/// streaming, whatever the caller's options asked.  Absent options are
/// passed on as `null`.
pub open spec fn enc_chat_body(
    model: Seq<u8>,
    messages: Seq<ChatMessageV>,
    options: ChatOptionsV,
) -> Seq<u8> {
    ("{\"model\":").spec_bytes() + jstr(model) + (",\"messages\":[").spec_bytes() + enc_msg_items(
        messages,
    ) + ("],\"stream\":false,\"options\":{\"temperature\":").spec_bytes() + num_or_null(
        options.temperature,
    ) + (",\"num_predict\":").spec_bytes() + int_or_null(options.max_tokens) + ("}}").spec_bytes()
}

/// Builds the chat completion request body, exactly [`enc_chat_body`].
pub fn encode_chat_body(
    model: &Vec<u8>,
    messages: &Vec<ChatMessage>,
    options: &ChatOptions,
) -> (out: Vec<u8>)
    ensures
        out@ == enc_chat_body(model@, messages.deep_view(), options.deep_view()),
{
    let mut out: Vec<u8> = Vec::new();
    push_lit(&mut out, "{\"model\":");
    crate::json::push_jstr(&mut out, model.as_slice());
    push_lit(&mut out, ",\"messages\":[");
    push_msg_items(&mut out, messages);
    push_lit(&mut out, "],\"stream\":false,\"options\":{\"temperature\":");
    match &options.temperature {
        Some(t) => {
            let mut tb = copy_bytes(t);
            out.append(&mut tb);
        },
        None => push_lit(&mut out, "null"),
    }
    push_lit(&mut out, ",\"num_predict\":");
    match &options.max_tokens {
        Some(n) => push_dec_i64(&mut out, *n as i64),
        None => push_lit(&mut out, "null"),
    }
    push_lit(&mut out, "}}");
    assert(out@ =~= enc_chat_body(model@, messages.deep_view(), options.deep_view()));
    out
}

/// The message content of a chat response document: absent or `null` means
/// no content (which defaults to empty), a malformed message fails.
pub open spec fn chat_content_of(ms: Seq<(Seq<u8>, JsonV)>) -> Option<Option<Seq<u8>>> {
    match olook(ms, ("message").spec_bytes()) {
        None => Some(None),
        Some(JsonV::Null) => Some(None),
        Some(JsonV::Obj(mm)) => match (
            olook(mm, ("role").spec_bytes()),
            olook(mm, ("content").spec_bytes()),
        ) {
            (Some(JsonV::Str(_)), Some(JsonV::Str(c))) => Some(Some(c)),
            _ => None,
        },
        _ => None,
    }
}

pub open spec fn opt_count_of(ms: Seq<(Seq<u8>, JsonV)>, key: Seq<u8>) -> Option<Option<i32>> {
    match olook(ms, key) {
        None => Some(None),
        Some(JsonV::Null) => Some(None),
        Some(JsonV::Num(t)) => match i32_of_num(t) {
            Some(v) => Some(Some(v)),
            None => None,
        },
        _ => None,
    }
}

pub open spec fn opt_done_of(ms: Seq<(Seq<u8>, JsonV)>) -> bool {
    match olook(ms, ("done").spec_bytes()) {
        None => true,
        Some(JsonV::Null) => true,
        Some(JsonV::Bool(_)) => true,
        _ => false,
    }
}

/// What a chat response document yields: the content (empty when the
/// backend sent none) and the token counts (zero when absent).  A document
/// of the wrong shape yields nothing.
pub open spec fn chat_reply_of(j: JsonV) -> Option<(Seq<u8>, Usage)> {
    match j {
        JsonV::Obj(ms) => {
            match (
                chat_content_of(ms),
                opt_count_of(ms, ("prompt_eval_count").spec_bytes()),
                opt_count_of(ms, ("eval_count").spec_bytes()),
            ) {
                (Some(content), Some(pec), Some(ec)) => {
                    if opt_done_of(ms) {
                        Some(
                            (
                                match content {
                                    Some(c) => c,
                                    None => Seq::empty(),
                                },
                                Usage {
                                    input_tokens: match pec {
                                        Some(v) => v,
                                        None => 0,
                                    },
                                    output_tokens: match ec {
                                        Some(v) => v,
                                        None => 0,
                                    },
                                },
                            ),
                        )
                    } else {
                        None
                    }
                },
                _ => None,
            }
        },
        _ => None,
    }
}

/// What a completed chat exchange yields, from the HTTP status, the status
/// line as the HTTP client displays it (code and canonical reason, e.g.
/// `500 Internal Server Error`) and the body: the content and usage on
/// success; on a non-success status or a body of the wrong shape, the error
/// text sent back to the remote peer.
pub open spec fn chat_result_spec(
    status: u16,
    status_text: Seq<u8>,
    body: Seq<u8>,
) -> Result<(Seq<u8>, Usage), Seq<u8>> {
    if !(200 <= status < 300) {
        Err(("Ollama error: ").spec_bytes() + status_text)
    } else {
        match sp_json(body) {
            Some(j) => match chat_reply_of(j) {
                Some((content, usage)) => Ok((content, usage)),
                None => Err(("invalid response body from Ollama").spec_bytes()),
            },
            None => Err(("invalid response body from Ollama").spec_bytes()),
        }
    }
}

/// Interprets the backend's answer to a chat completion, exactly
/// [`chat_result_spec`]: `status_text` is the status line the HTTP client
/// displayed.  Errors name their cause and are scoped to this one request.
pub fn interpret_chat_response(
    status: u16,
    status_text: &[u8],
    body: &[u8],
) -> (r: Result<(Vec<u8>, Usage), Vec<u8>>)
    ensures
        match r {
            Ok((content, usage)) => chat_result_spec(status, status_text@, body@) == Ok::<
                _,
                Seq<u8>,
            >((content@, usage)),
            Err(e) => chat_result_spec(status, status_text@, body@) == Err::<
                (Seq<u8>, Usage),
                _,
            >(e@),
        },
{
    if !(200 <= status && status < 300) {
        let mut e: Vec<u8> = Vec::new();
        push_lit(&mut e, "Ollama error: ");
        let mut t = vstd::slice::slice_to_vec(status_text);
        e.append(&mut t);
        assert(e@ =~= ("Ollama error: ").spec_bytes() + status_text@);
        return Err(e);
    }
    let bad = || -> (e: Vec<u8>)
        ensures
            e@ == ("invalid response body from Ollama").spec_bytes(),
        {
            let mut e: Vec<u8> = Vec::new();
            push_lit(&mut e, "invalid response body from Ollama");
            e
        };
    let j = match parse_json(body) {
        Some(j) => j,
        None => {
            return Err(bad());
        },
    };
    let ghost jv = j.deep_view();
    let ms = match j {
        Json::Obj(ms) => ms,
        _ => {
            return Err(bad());
        },
    };
    proof {
        crate::json::lemma_obj_deep_view(ms);
        assert(jv == JsonV::Obj(ms.deep_view()));
    }
    let content: Option<Vec<u8>> = match obj_get(&ms, "message") {
        None => None,
        Some(Json::Null) => None,
        Some(Json::Obj(mm)) => {
            proof {
                crate::json::lemma_obj_deep_view(*mm);
            }
            match (obj_get(mm, "role"), obj_get(mm, "content")) {
                (Some(Json::Str(_)), Some(Json::Str(c))) => Some(copy_bytes(c)),
                _ => {
                    return Err(bad());
                },
            }
        },
        _ => {
            return Err(bad());
        },
    };
    let input_tokens: i32 = match obj_get(&ms, "prompt_eval_count") {
        None => 0,
        Some(Json::Null) => 0,
        Some(Json::Num(t)) => {
            match parse_i32_token(t.as_slice()) {
                Some(v) => v,
                None => {
                    return Err(bad());
                },
            }
        },
        _ => {
            return Err(bad());
        },
    };
    let output_tokens: i32 = match obj_get(&ms, "eval_count") {
        None => 0,
        Some(Json::Null) => 0,
        Some(Json::Num(t)) => {
            match parse_i32_token(t.as_slice()) {
                Some(v) => v,
                None => {
                    return Err(bad());
                },
            }
        },
        _ => {
            return Err(bad());
        },
    };
    match obj_get(&ms, "done") {
        None => {},
        Some(Json::Null) => {},
        Some(Json::Bool(_)) => {},
        _ => {
            return Err(bad());
        },
    }
    let content_bytes: Vec<u8> = match content {
        Some(c) => c,
        None => Vec::new(),
    };
    let usage = Usage { input_tokens, output_tokens };
    assert(chat_result_spec(status, status_text@, body@) == Ok::<_, Seq<u8>>((content_bytes@, usage)));
    Ok((content_bytes, usage))
}

/// The error text for a chat request that never reached the backend.
pub fn chat_transport_error(cause: &Vec<u8>) -> (r: Vec<u8>)
    ensures
        r@ == ("Ollama request failed: ").spec_bytes() + cause@,
{
    let mut out: Vec<u8> = Vec::new();
    push_lit(&mut out, "Ollama request failed: ");
    let mut c = copy_bytes(cause);
    out.append(&mut c);
    out
}

/// The names in a model listing, in order; a malformed entry fails the
/// whole listing.
pub open spec fn names_of(items: Seq<JsonV>) -> Option<Seq<Seq<u8>>>
    decreases items.len(),
{
    if items.len() == 0 {
        Some(Seq::empty())
    } else {
        match (names_of(items.drop_last()), items.last()) {
            (Some(rest), JsonV::Obj(mm)) => match olook(mm, ("name").spec_bytes()) {
                Some(JsonV::Str(name)) => Some(rest.push(name)),
                _ => None,
            },
            _ => None,
        }
    }
}

proof fn lemma_names_of_prefix_none(items: Seq<JsonV>, k: int)
    requires
        0 <= k <= items.len(),
        names_of(items.take(k)) is None,
    ensures
        names_of(items) is None,
    decreases items.len() - k,
{
    if k == items.len() {
        assert(items.take(k) =~= items);
    } else {
        assert(items.take(k + 1).drop_last() =~= items.take(k));
        lemma_names_of_prefix_none(items, k + 1);
    }
}

/// What a model listing body yields: the model names, or nothing when the
/// body is not the expected document.
pub open spec fn models_spec(body: Seq<u8>) -> Option<Seq<Seq<u8>>> {
    match sp_json(body) {
        Some(JsonV::Obj(ms)) => match olook(ms, ("models").spec_bytes()) {
            Some(JsonV::Arr(items)) => names_of(items),
            _ => None,
        },
        _ => None,
    }
}

/// Reads the model names out of a model listing body, exactly
/// [`models_spec`].
pub fn models_from_body(body: &[u8]) -> (r: Option<Vec<Vec<u8>>>)
    ensures
        match r {
            Some(v) => models_spec(body@) == Some(v.deep_view()),
            None => models_spec(body@) is None,
        },
{
    let j = match parse_json(body) {
        Some(j) => j,
        None => {
            return None;
        },
    };
    let ghost jv = j.deep_view();
    let ms = match j {
        Json::Obj(ms) => ms,
        _ => {
            return None;
        },
    };
    proof {
        crate::json::lemma_obj_deep_view(ms);
        assert(jv == JsonV::Obj(ms.deep_view()));
    }
    let items = match obj_get(&ms, "models") {
        Some(Json::Arr(v)) => v,
        _ => {
            return None;
        },
    };
    proof {
        crate::json::lemma_arr_deep_view(*items);
    }
    let mut out: Vec<Vec<u8>> = Vec::new();
    assert(out.deep_view() =~= Seq::<Seq<u8>>::empty());
    assert(items.deep_view().take(0) =~= Seq::<JsonV>::empty());
    let mut k: usize = 0;
    while k < items.len()
        invariant
            k <= items@.len(),
            names_of(items.deep_view().take(k as int)) == Some(out.deep_view()),
            models_spec(body@) == names_of(items.deep_view()),
        decreases items@.len() - k,
    {
        let ghost dv = items.deep_view();
        let ghost preout = out.deep_view();
        proof {
            assert(dv[k as int] == items@[k as int].deep_view());
            assert(dv.take(k as int + 1).drop_last() =~= dv.take(k as int));
            assert(dv.take(k as int + 1).last() == dv[k as int]);
        }
        match &items[k] {
            Json::Obj(mm) => {
                proof {
                    crate::json::lemma_obj_deep_view(*mm);
                }
                match obj_get(mm, "name") {
                    Some(Json::Str(name)) => {
                        out.push(copy_bytes(name));
                        proof {
                            assert(out.deep_view() =~~= preout.push(name@));
                        }
                    },
                    _ => {
                        proof {
                            assert(names_of(dv.take(k as int + 1)) is None);
                            lemma_names_of_prefix_none(dv, k as int + 1);
                        }
                        return None;
                    },
                }
            },
            _ => {
                proof {
                    assert(names_of(dv.take(k as int + 1)) is None);
                    lemma_names_of_prefix_none(dv, k as int + 1);
                }
                return None;
            },
        }
        k = k + 1;
    }
    assert(items.deep_view().take(items@.len() as int) =~= items.deep_view());
    Some(out)
}


/// Law: a probe against an unreachable backend — one that gave no HTTP
/// answer at all — is `false`, and [`probe_outcome`] never fails or panics.
pub proof fn lemma_probe_unreachable_false()
    ensures
        !probe_ok(None),
{
}

} // verus!
