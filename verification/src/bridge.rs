//! The payloads exchanged with the OpenClaw bridge: requests, the replies built locally,
//! and the unwrapping of a reply from a real bridge.
use vstd::prelude::*;
use crate::text;
use crate::json;
use crate::json::{JsonValue, JsonView};
use crate::clock;
use crate::transport::OpenClawWsClient;

verus! {

pub fn jstr(s: &str) -> (r: JsonValue)
    ensures
        r@ == JsonView::Str(s@),
{
    JsonValue::Str(String::from_str(s))
}

pub fn jint(v: i64) -> (r: JsonValue)
    ensures
        r@ == JsonView::Number(text::int_text(v as int)),
{
    JsonValue::Number(text::i64_to_text(v))
}

pub fn jopt_int(v: Option<i64>) -> (r: JsonValue)
    ensures
        r@ == opt_int_view(v),
{
    match v {
        Some(n) => jint(n),
        None => JsonValue::Null,
    }
}

pub open spec fn opt_int_view(v: Option<i64>) -> JsonView {
    match v {
        Some(n) => JsonView::Number(text::int_text(n as int)),
        None => JsonView::Null,
    }
}

pub fn jobject(entries: Vec<(String, JsonValue)>) -> (r: JsonValue)
    ensures
        r@ == JsonView::Object(json::view_members(entries@)),
{
    JsonValue::Object(entries)
}

pub fn jarray(items: Vec<JsonValue>) -> (r: JsonValue)
    ensures
        r@ == JsonView::Array(json::view_items(items@)),
{
    JsonValue::Array(items)
}

pub fn entry(k: &str, v: JsonValue) -> (r: (String, JsonValue))
    ensures
        r.0@ == k@,
        r.1 == v,
{
    (String::from_str(k), v)
}

pub fn object1(k1: &str, v1: JsonValue) -> (r: JsonValue)
    ensures
        r@ == JsonView::Object(seq![(k1@, v1@)]),
{
    let mut es: Vec<(String, JsonValue)> = Vec::new();
    es.push(entry(k1, v1));
    proof {
        json::lemma_view_members(es@);
    }
    let r = jobject(es);
    assert(json::view_members(es@) =~= seq![(k1@, v1@)]);
    r
}

pub fn object2(k1: &str, v1: JsonValue, k2: &str, v2: JsonValue) -> (r: JsonValue)
    ensures
        r@ == JsonView::Object(seq![(k1@, v1@), (k2@, v2@)]),
{
    let mut es: Vec<(String, JsonValue)> = Vec::new();
    es.push(entry(k1, v1));
    es.push(entry(k2, v2));
    proof {
        json::lemma_view_members(es@);
    }
    let r = jobject(es);
    assert(json::view_members(es@) =~= seq![(k1@, v1@), (k2@, v2@)]);
    r
}

pub fn object3(k1: &str, v1: JsonValue, k2: &str, v2: JsonValue, k3: &str, v3: JsonValue) -> (r:
    JsonValue)
    ensures
        r@ == JsonView::Object(seq![(k1@, v1@), (k2@, v2@), (k3@, v3@)]),
{
    let mut es: Vec<(String, JsonValue)> = Vec::new();
    es.push(entry(k1, v1));
    es.push(entry(k2, v2));
    es.push(entry(k3, v3));
    proof {
        json::lemma_view_members(es@);
    }
    let r = jobject(es);
    assert(json::view_members(es@) =~= seq![(k1@, v1@), (k2@, v2@), (k3@, v3@)]);
    r
}

pub fn object4(
    k1: &str,
    v1: JsonValue,
    k2: &str,
    v2: JsonValue,
    k3: &str,
    v3: JsonValue,
    k4: &str,
    v4: JsonValue,
) -> (r: JsonValue)
    ensures
        r@ == JsonView::Object(seq![(k1@, v1@), (k2@, v2@), (k3@, v3@), (k4@, v4@)]),
{
    let mut es: Vec<(String, JsonValue)> = Vec::new();
    es.push(entry(k1, v1));
    es.push(entry(k2, v2));
    es.push(entry(k3, v3));
    es.push(entry(k4, v4));
    proof {
        json::lemma_view_members(es@);
    }
    let r = jobject(es);
    assert(json::view_members(es@) =~= seq![(k1@, v1@), (k2@, v2@), (k3@, v3@), (k4@, v4@)]);
    r
}

pub fn object5(
    k1: &str,
    v1: JsonValue,
    k2: &str,
    v2: JsonValue,
    k3: &str,
    v3: JsonValue,
    k4: &str,
    v4: JsonValue,
    k5: &str,
    v5: JsonValue,
) -> (r: JsonValue)
    ensures
        r@ == JsonView::Object(seq![(k1@, v1@), (k2@, v2@), (k3@, v3@), (k4@, v4@), (k5@, v5@)]),
{
    let mut es: Vec<(String, JsonValue)> = Vec::new();
    es.push(entry(k1, v1));
    es.push(entry(k2, v2));
    es.push(entry(k3, v3));
    es.push(entry(k4, v4));
    es.push(entry(k5, v5));
    proof {
        json::lemma_view_members(es@);
    }
    let r = jobject(es);
    assert(json::view_members(es@) =~= seq![
        (k1@, v1@),
        (k2@, v2@),
        (k3@, v3@),
        (k4@, v4@),
        (k5@, v5@),
    ]);
    r
}

pub fn array1(v1: JsonValue) -> (r: JsonValue)
    ensures
        r@ == JsonView::Array(seq![v1@]),
{
    let mut items: Vec<JsonValue> = Vec::new();
    items.push(v1);
    proof {
        json::lemma_view_items(items@);
    }
    let r = jarray(items);
    assert(json::view_items(items@) =~= seq![v1@]);
    r
}

/// A copy of a JSON value.
pub fn json_clone(v: &JsonValue) -> (r: JsonValue)
    ensures
        r@ == v@,
    decreases v,
{
    match v {
        JsonValue::Null => JsonValue::Null,
        JsonValue::Bool(b) => JsonValue::Bool(*b),
        JsonValue::Number(t) => JsonValue::Number(t.clone()),
        JsonValue::Str(s) => JsonValue::Str(s.clone()),
        JsonValue::Array(a) => {
            proof {
                json::lemma_view_items(a@);
            }
            let mut items: Vec<JsonValue> = Vec::new();
            let mut i: usize = 0;
            while i < a.len()
                invariant
                    i <= a@.len(),
                    *v == JsonValue::Array(*a),
                    json::view_items(a@).len() == a@.len(),
                    forall|j: int| 0 <= j < a@.len() ==> #[trigger] json::view_items(a@)[j] == json::view_of(a@[j]),
                    items@.len() == i,
                    forall|j: int| 0 <= j < i ==> #[trigger] json::view_of(items@[j]) == json::view_of(a@[j]),
                decreases a@.len() - i,
            {
                assert(decreases_to!(*v => a@[i as int])) by {
                    assert(decreases_to!(*v => (*v)->Array_0));
                    assert(decreases_to!(*a => a@));
                    assert(decreases_to!(a@ => a@[i as int]));
                }
                let c = json_clone(&a[i]);
                items.push(c);
                i = i + 1;
            }
            proof {
                json::lemma_view_items(items@);
            }
            assert(json::view_items(items@) =~= json::view_items(a@));
            JsonValue::Array(items)
        },
        JsonValue::Object(es) => {
            proof {
                json::lemma_view_members(es@);
            }
            let mut out: Vec<(String, JsonValue)> = Vec::new();
            let mut i: usize = 0;
            while i < es.len()
                invariant
                    i <= es@.len(),
                    *v == JsonValue::Object(*es),
                    json::view_members(es@).len() == es@.len(),
                    forall|j: int| 0 <= j < es@.len() ==> #[trigger] json::view_members(es@)[j] == (es@[j].0@, json::view_of(es@[j].1)),
                    out@.len() == i,
                    forall|j: int| 0 <= j < i ==> #[trigger] out@[j].0@ == es@[j].0@ && json::view_of(out@[j].1) == json::view_of(es@[j].1),
                decreases es@.len() - i,
            {
                assert(decreases_to!(*v => es@[i as int].1)) by {
                    assert(decreases_to!(*v => (*v)->Object_0));
                    assert(decreases_to!(*es => es@));
                    assert(decreases_to!(es@ => es@[i as int]));
                    assert(decreases_to!(es@[i as int] => es@[i as int].1));
                }
                let c = json_clone(&es[i].1);
                out.push((es[i].0.clone(), c));
                i = i + 1;
            }
            proof {
                json::lemma_view_members(out@);
            }
            assert(json::view_members(out@) =~= json::view_members(es@));
            JsonValue::Object(out)
        },
    }
}

/// The request for a chat completion.
pub open spec fn chat_request_view(model: Seq<char>, user_text: Seq<char>) -> JsonView {
    JsonView::Object(
        seq![
            ("input"@, JsonView::Object(seq![("messages"@, JsonView::Array(seq![user_message_view(user_text)]))])),
            ("model"@, JsonView::Str(model)),
            ("type"@, JsonView::Str("chat.completion.create"@)),
        ],
    )
}

pub open spec fn user_message_view(content: Seq<char>) -> JsonView {
    JsonView::Object(seq![("content"@, JsonView::Str(content)), ("role"@, JsonView::Str("user"@))])
}

pub open spec fn handshake_view(
    session_namespace: Seq<char>,
    session_key_hint: Seq<char>,
    freshness_seconds: Option<i64>,
) -> JsonView {
    JsonView::Object(
        seq![
            ("freshness_seconds"@, opt_int_view(freshness_seconds)),
            ("session_key_hint"@, JsonView::Str(session_key_hint)),
            ("session_namespace"@, JsonView::Str(session_namespace)),
        ],
    )
}

/// The request for a Codex App chat, with the session handshake.
pub open spec fn codex_app_chat_request_view(
    model: Seq<char>,
    user_text: Seq<char>,
    session_namespace: Seq<char>,
    session_key_hint: Seq<char>,
    freshness_seconds: Option<i64>,
) -> JsonView {
    JsonView::Object(
        seq![
            ("handshake"@, handshake_view(session_namespace, session_key_hint, freshness_seconds)),
            ("input"@, JsonView::Object(seq![("messages"@, JsonView::Array(seq![user_message_view(user_text)]))])),
            ("model"@, JsonView::Str(model)),
            ("source"@, JsonView::Str("codex-app"@)),
            ("type"@, JsonView::Str("codex.app.chat.create"@)),
        ],
    )
}

/// The request for a response.
pub open spec fn response_request_view(model: Seq<char>, input: Seq<char>) -> JsonView {
    JsonView::Object(
        seq![
            ("input"@, JsonView::Str(input)),
            ("model"@, JsonView::Str(model)),
            ("type"@, JsonView::Str("response.create"@)),
        ],
    )
}

/// The request for a Codex App response, with the session handshake.
pub open spec fn codex_app_response_request_view(
    model: Seq<char>,
    input: Seq<char>,
    session_namespace: Seq<char>,
    session_key_hint: Seq<char>,
    freshness_seconds: Option<i64>,
) -> JsonView {
    JsonView::Object(
        seq![
            ("handshake"@, handshake_view(session_namespace, session_key_hint, freshness_seconds)),
            ("input"@, JsonView::Str(input)),
            ("model"@, JsonView::Str(model)),
            ("source"@, JsonView::Str("codex-app"@)),
            ("type"@, JsonView::Str("codex.app.response.create"@)),
        ],
    )
}

/// A chat completion that answers with `content`.
pub open spec fn chat_completion_view(
    id: Seq<char>,
    created: i64,
    model: Seq<char>,
    content: Seq<char>,
) -> JsonView {
    JsonView::Object(
        seq![
            (
                "choices"@,
                JsonView::Array(
                    seq![
                        JsonView::Object(
                            seq![
                                ("finish_reason"@, JsonView::Str("stop"@)),
                                ("index"@, JsonView::Number(text::int_text(0))),
                                (
                                    "message"@,
                                    JsonView::Object(
                                        seq![
                                            ("content"@, JsonView::Str(content)),
                                            ("role"@, JsonView::Str("assistant"@)),
                                        ],
                                    ),
                                ),
                            ],
                        ),
                    ],
                ),
            ),
            ("created"@, JsonView::Number(text::int_text(created as int))),
            ("id"@, JsonView::Str(id)),
            ("model"@, JsonView::Str(model)),
            ("object"@, JsonView::Str("chat.completion"@)),
        ],
    )
}

/// A response whose output is `output_text`.
pub open spec fn response_view(
    id: Seq<char>,
    created_at: i64,
    model: Seq<char>,
    output_text: Seq<char>,
) -> JsonView {
    JsonView::Object(
        seq![
            ("created_at"@, JsonView::Number(text::int_text(created_at as int))),
            ("id"@, JsonView::Str(id)),
            ("model"@, JsonView::Str(model)),
            ("object"@, JsonView::Str("response"@)),
            (
                "output"@,
                JsonView::Array(
                    seq![
                        JsonView::Object(
                            seq![
                                (
                                    "content"@,
                                    JsonView::Array(
                                        seq![
                                            JsonView::Object(
                                                seq![
                                                    ("text"@, JsonView::Str(output_text)),
                                                    ("type"@, JsonView::Str("output_text"@)),
                                                ],
                                            ),
                                        ],
                                    ),
                                ),
                                ("role"@, JsonView::Str("assistant"@)),
                                ("type"@, JsonView::Str("message"@)),
                            ],
                        ),
                    ],
                ),
            ),
        ],
    )
}

fn user_message(content: &str) -> (r: JsonValue)
    ensures
        r@ == user_message_view(content@),
{
    object2("content", jstr(content), "role", jstr("user"))
}

fn handshake(session_namespace: &str, session_key_hint: &str, freshness_seconds: Option<i64>) -> (r:
    JsonValue)
    ensures
        r@ == handshake_view(session_namespace@, session_key_hint@, freshness_seconds),
{
    object3(
        "freshness_seconds",
        jopt_int(freshness_seconds),
        "session_key_hint",
        jstr(session_key_hint),
        "session_namespace",
        jstr(session_namespace),
    )
}

pub fn map_chat_request(model: &str, user_text: &str) -> (r: JsonValue)
    ensures
        r@ == chat_request_view(model@, user_text@),
{
    let messages = object1("messages", array1(user_message(user_text)));
    object3("input", messages, "model", jstr(model), "type", jstr("chat.completion.create"))
}

pub fn map_codex_app_chat_request(
    model: &str,
    user_text: &str,
    session_namespace: &str,
    session_key_hint: &str,
    freshness_seconds: Option<i64>,
) -> (r: JsonValue)
    ensures
        r@ == codex_app_chat_request_view(
            model@,
            user_text@,
            session_namespace@,
            session_key_hint@,
            freshness_seconds,
        ),
{
    let messages = object1("messages", array1(user_message(user_text)));
    object5(
        "handshake",
        handshake(session_namespace, session_key_hint, freshness_seconds),
        "input",
        messages,
        "model",
        jstr(model),
        "source",
        jstr("codex-app"),
        "type",
        jstr("codex.app.chat.create"),
    )
}

pub fn map_response_request(model: &str, input: &str) -> (r: JsonValue)
    ensures
        r@ == response_request_view(model@, input@),
{
    object3("input", jstr(input), "model", jstr(model), "type", jstr("response.create"))
}

pub fn map_codex_app_response_request(
    model: &str,
    input: &str,
    session_namespace: &str,
    session_key_hint: &str,
    freshness_seconds: Option<i64>,
) -> (r: JsonValue)
    ensures
        r@ == codex_app_response_request_view(
            model@,
            input@,
            session_namespace@,
            session_key_hint@,
            freshness_seconds,
        ),
{
    object5(
        "handshake",
        handshake(session_namespace, session_key_hint, freshness_seconds),
        "input",
        jstr(input),
        "model",
        jstr(model),
        "source",
        jstr("codex-app"),
        "type",
        jstr("codex.app.response.create"),
    )
}

/// A chat completion with the given id, time and content.
pub fn chat_completion(id: &str, created: i64, model: &str, content: &str) -> (r: JsonValue)
    ensures
        r@ == chat_completion_view(id@, created, model@, content@),
{
    let message = object2("content", jstr(content), "role", jstr("assistant"));
    let choice = object3("finish_reason", jstr("stop"), "index", jint(0), "message", message);
    object5(
        "choices",
        array1(choice),
        "created",
        jint(created),
        "id",
        jstr(id),
        "model",
        jstr(model),
        "object",
        jstr("chat.completion"),
    )
}

/// A response with the given id, time and output text.
pub fn response_output(id: &str, created_at: i64, model: &str, output_text: &str) -> (r: JsonValue)
    ensures
        r@ == response_view(id@, created_at, model@, output_text@),
{
    let part = object2("text", jstr(output_text), "type", jstr("output_text"));
    let item = object3("content", array1(part), "role", jstr("assistant"), "type", jstr("message"));
    object5(
        "created_at",
        jint(created_at),
        "id",
        jstr(id),
        "model",
        jstr(model),
        "object",
        jstr("response"),
        "output",
        array1(item),
    )
}

/// `prefix` followed by the decimal text of `n`.
pub fn prefixed_number(prefix: &str, n: i64) -> (r: String)
    ensures
        r@ == prefix@ + text::int_text(n as int),
{
    let digits = text::i64_to_text(n);
    text::concat2(prefix, digits.as_str())
}

/// The chat completion that a proxy answers with, stamped with the current time in
/// milliseconds (for its id) and seconds.
pub fn map_chat_response_at(model: &str, assistant_text: &str, now_millis: i64, now_secs: i64) -> (r:
    JsonValue)
    ensures
        r@ == chat_completion_view(
            "chatcmpl-proxy-"@ + text::int_text(now_millis as int),
            now_secs,
            model@,
            assistant_text@,
        ),
{
    let id = prefixed_number("chatcmpl-proxy-", now_millis);
    chat_completion(id.as_str(), now_secs, model, assistant_text)
}

/// The response that a proxy answers with, stamped with the current time in milliseconds
/// (for its id) and seconds.
pub fn map_response_output_at(model: &str, output_text: &str, now_millis: i64, now_secs: i64) -> (r:
    JsonValue)
    ensures
        r@ == response_view(
            "resp-proxy-"@ + text::int_text(now_millis as int),
            now_secs,
            model@,
            output_text@,
        ),
{
    let id = prefixed_number("resp-proxy-", now_millis);
    response_output(id.as_str(), now_secs, model, output_text)
}

/// The chat completion that a proxy answers with, stamped now.
pub fn map_chat_response(model: &str, assistant_text: &str) -> (r: JsonValue)
    ensures
        exists|millis: i64, secs: i64|
            r@ == #[trigger] chat_completion_view(
                "chatcmpl-proxy-"@ + text::int_text(millis as int),
                secs,
                model@,
                assistant_text@,
            ),
{
    let (millis, secs) = clock::utc_now_millis_and_secs();
    map_chat_response_at(model, assistant_text, millis, secs)
}

/// The response that a proxy answers with, stamped now.
pub fn map_response_output(model: &str, output_text: &str) -> (r: JsonValue)
    ensures
        exists|millis: i64, secs: i64|
            r@ == #[trigger] response_view(
                "resp-proxy-"@ + text::int_text(millis as int),
                secs,
                model@,
                output_text@,
            ),
{
    let (millis, secs) = clock::utc_now_millis_and_secs();
    map_response_output_at(model, output_text, millis, secs)
}

/// What a reply from a real bridge carries: the wrapped upstream payload, or the upstream's
/// error written out as JSON, or the reply itself.
pub open spec fn normalized(payload: JsonView) -> Result<JsonView, Seq<char>> {
    match json::get_key(payload, "upstream_payload"@) {
        Some(u) => Ok(u),
        None => match json::get_key(payload, "error"@) {
            Some(e) => Err("real_ws_upstream_error:"@ + json::render(e)),
            None => Ok(payload),
        },
    }
}

pub fn normalize_real_payload(payload: JsonValue) -> (r: Result<JsonValue, String>)
    ensures
        match (r, normalized(payload@)) {
            (Ok(v), Ok(w)) => v@ == w,
            (Err(m), Err(n)) => m@ == n,
            _ => false,
        },
{
    if let Some(upstream) = json::json_get(&payload, "upstream_payload") {
        return Ok(json_clone(upstream));
    }
    if let Some(error) = json::json_get(&payload, "error") {
        let mut message = String::from_str("real_ws_upstream_error:");
        json::write_json(&mut message, error);
        return Err(message);
    }
    Ok(payload)
}

/// A frame received from a real bridge's websocket: a text or binary frame with its
/// payload, a close frame, or any other kind of frame, written out as the frame's debug text.
pub enum WsFrame {
    Text(String),
    Binary(Vec<u8>),
    Close,
    Other(String),
}

/// The payload a data frame carries, to be read as JSON.
pub enum FramePayload {
    Text(String),
    Binary(Vec<u8>),
}

/// Which frames carry a payload: a text or binary frame hands its payload on; a close frame
/// ends the exchange (`real_ws_connection_closed`); any other kind is refused, with its debug
/// text after `real_ws_unexpected_message_type:`.
pub fn frame_payload(frame: WsFrame) -> (r: Result<FramePayload, String>)
    ensures
        match frame {
            WsFrame::Text(t) => r matches Ok(FramePayload::Text(u)) && u@ == t@,
            WsFrame::Binary(b) => r matches Ok(FramePayload::Binary(c)) && c@ == b@,
            WsFrame::Close => r matches Err(m) && m@ == "real_ws_connection_closed"@,
            WsFrame::Other(d) => r matches Err(m) && m@ == "real_ws_unexpected_message_type:"@ + d@,
        },
{
    match frame {
        WsFrame::Text(t) => Ok(FramePayload::Text(t)),
        WsFrame::Binary(b) => Ok(FramePayload::Binary(b)),
        WsFrame::Close => Err(String::from_str("real_ws_connection_closed")),
        WsFrame::Other(d) => Err(text::concat2("real_ws_unexpected_message_type:", d.as_str())),
    }
}

/// The error for a payload that is not JSON: `real_ws_invalid_json:` for a text payload,
/// `real_ws_invalid_binary_json:` for a binary one, then what the JSON reader said.
pub fn invalid_payload_error(payload: &FramePayload, detail: &str) -> (r: String)
    ensures
        r@ == match payload {
            FramePayload::Text(_) => "real_ws_invalid_json:"@ + detail@,
            FramePayload::Binary(_) => "real_ws_invalid_binary_json:"@ + detail@,
        },
{
    match payload {
        FramePayload::Text(_) => text::concat2("real_ws_invalid_json:", detail),
        FramePayload::Binary(_) => text::concat2("real_ws_invalid_binary_json:", detail),
    }
}

/// A payload on its way to the bridge.
pub struct BridgeRequest {
    pub upstream_payload: JsonValue,
}

/// A payload on its way back from the bridge.
pub struct BridgeResponse {
    pub upstream_payload: JsonValue,
}

/// The text of a mapped reply: `proxy mapped: ` and the text, or `proxy mapped: empty`.
pub open spec fn proxy_mapped(t: Option<Seq<char>>) -> Seq<char> {
    match t {
        Some(s) => "proxy mapped: "@ + s,
        None => "proxy mapped: empty"@,
    }
}

fn proxy_mapped_text(t: Option<&str>) -> (r: String)
    ensures
        r@ == proxy_mapped(match t {
            Some(s) => Some(s@),
            None => None,
        }),
{
    match t {
        Some(s) => text::concat2("proxy mapped: ", s),
        None => String::from_str("proxy mapped: empty"),
    }
}

impl OpenClawWsClient {
    /// The chat completion that the proxy answers with: the mapped request's first message,
    /// echoed back, or an error where the upstream is not ready.
    pub fn proxy_chat_at(
        &self,
        model: &str,
        user_text: &str,
        upstream_ready: bool,
        now_millis: i64,
        now_secs: i64,
    ) -> (r: Result<JsonValue, String>)
        ensures
            !upstream_ready ==> (r matches Err(m) && m@ == "upstream unavailable"@),
            upstream_ready ==> (r matches Ok(v) && v@ == chat_completion_view(
                "chatcmpl-proxy-"@ + text::int_text(now_millis as int),
                now_secs,
                model@,
                "proxy mapped: "@ + user_text@,
            )),
    {
        if !upstream_ready {
            return Err(String::from_str("upstream unavailable"));
        }
        let bridge_request = BridgeRequest { upstream_payload: map_chat_request(model, user_text) };
        let request = &bridge_request.upstream_payload;
        let content = json::opt_str(
            json::opt_get(
                json::opt_at(json::opt_get(json::json_get(request, "input"), "messages"), 0),
                "content",
            ),
        );
        proof {
            reveal_strlit("input");
            reveal_strlit("messages");
            reveal_strlit("content");
            reveal_strlit("model");
            reveal_strlit("type");
            reveal_strlit("role");
        }
        let assistant_text = proxy_mapped_text(content);
        let bridge_response = BridgeResponse {
            upstream_payload: map_chat_response_at(model, assistant_text.as_str(), now_millis, now_secs),
        };
        Ok(bridge_response.upstream_payload)
    }

    /// The response that the proxy answers with: the mapped request's input, echoed back,
    /// or an error where the upstream is not ready.
    pub fn proxy_response_at(
        &self,
        model: &str,
        input: &str,
        upstream_ready: bool,
        now_millis: i64,
        now_secs: i64,
    ) -> (r: Result<JsonValue, String>)
        ensures
            !upstream_ready ==> (r matches Err(m) && m@ == "upstream unavailable"@),
            upstream_ready ==> (r matches Ok(v) && v@ == response_view(
                "resp-proxy-"@ + text::int_text(now_millis as int),
                now_secs,
                model@,
                "proxy mapped: "@ + input@,
            )),
    {
        if !upstream_ready {
            return Err(String::from_str("upstream unavailable"));
        }
        let bridge_request = BridgeRequest { upstream_payload: map_response_request(model, input) };
        let content = json::opt_str(json::json_get(&bridge_request.upstream_payload, "input"));
        proof {
            reveal_strlit("input");
            reveal_strlit("model");
            reveal_strlit("type");
        }
        let output_text = proxy_mapped_text(content);
        let bridge_response = BridgeResponse {
            upstream_payload: map_response_output_at(model, output_text.as_str(), now_millis, now_secs),
        };
        Ok(bridge_response.upstream_payload)
    }

    /// `proxy_chat_at`, stamped now.
    pub fn proxy_chat(&self, model: &str, user_text: &str, upstream_ready: bool) -> (r: Result<
        JsonValue,
        String,
    >)
        ensures
            !upstream_ready ==> (r matches Err(m) && m@ == "upstream unavailable"@),
            upstream_ready ==> (r matches Ok(v) && exists|millis: i64, secs: i64|
                v@ == #[trigger] chat_completion_view(
                    "chatcmpl-proxy-"@ + text::int_text(millis as int),
                    secs,
                    model@,
                    "proxy mapped: "@ + user_text@,
                )),
    {
        let (millis, secs) = clock::utc_now_millis_and_secs();
        self.proxy_chat_at(model, user_text, upstream_ready, millis, secs)
    }

    /// `proxy_response_at`, stamped now.
    pub fn proxy_response(&self, model: &str, input: &str, upstream_ready: bool) -> (r: Result<
        JsonValue,
        String,
    >)
        ensures
            !upstream_ready ==> (r matches Err(m) && m@ == "upstream unavailable"@),
            upstream_ready ==> (r matches Ok(v) && exists|millis: i64, secs: i64|
                v@ == #[trigger] response_view(
                    "resp-proxy-"@ + text::int_text(millis as int),
                    secs,
                    model@,
                    "proxy mapped: "@ + input@,
                )),
    {
        let (millis, secs) = clock::utc_now_millis_and_secs();
        self.proxy_response_at(model, input, upstream_ready, millis, secs)
    }
}

} // verus!
