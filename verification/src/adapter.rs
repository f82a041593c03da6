//! The Codex App adapter: the session handshake it offers the bridge, and how it reads the
//! bridge's reply.
use vstd::prelude::*;
use std::sync::Arc;
use crate::text;
use crate::json;
use crate::json::{JsonValue, JsonView};
use crate::clock;
use crate::quota::opt_view;
use crate::transport::OpenClawWsClient;

verus! {

/// The account, source and observation that a Codex App request runs on behalf of.
pub struct CodexAppRequestContext {
    pub child_account_id: String,
    pub source_id: String,
    pub source_page: String,
    pub observed_at: String,
    pub runtime_session_namespace: Option<String>,
    pub runtime_session_key_hint: Option<String>,
}

/// The session handshake offered to the bridge.
pub struct CodexAppHandshakeMeta {
    pub session_namespace: String,
    pub session_key_hint: String,
    pub freshness_seconds: Option<i64>,
}

/// Where session namespaces and key hints come from: a namespace prefix and a key salt.
pub struct CodexAppSessionSource {
    pub namespace_prefix: String,
    pub key_salt: String,
}

pub open spec fn or_default(v: Option<Seq<char>>, d: Seq<char>) -> Seq<char> {
    match v {
        Some(s) => s,
        None => d,
    }
}

/// The session namespace of an account: the prefix, `:`, the account.
pub open spec fn namespace_for(prefix: Seq<char>, child: Seq<char>) -> Seq<char> {
    prefix + ":"@ + child
}

/// The key hint of a request: salt, account, source and page, joined by `:`.
pub open spec fn key_hint_for(salt: Seq<char>, ctx: CodexAppRequestContext) -> Seq<char> {
    salt + ":"@ + ctx.child_account_id@ + ":"@ + ctx.source_id@ + ":"@ + ctx.source_page@
}

/// The age of an observation, where it is known and not negative.
pub open spec fn freshness_of(elapsed: Option<i64>) -> Option<i64> {
    match elapsed {
        Some(v) => if v >= 0 {
            Some(v)
        } else {
            None
        },
        None => None,
    }
}

pub open spec fn handshake_matches(
    h: CodexAppHandshakeMeta,
    source: CodexAppSessionSource,
    ctx: CodexAppRequestContext,
    elapsed: Option<i64>,
) -> bool {
    &&& h.session_namespace@ == namespace_for(source.namespace_prefix@, ctx.child_account_id@)
    &&& h.session_key_hint@ == key_hint_for(source.key_salt@, ctx)
    &&& h.freshness_seconds == freshness_of(elapsed)
}

fn push_str(out: &mut String, s: &str)
    ensures
        final(out)@ == old(out)@ + s@,
{
    out.append(s);
}

impl CodexAppSessionSource {
    /// The source with the given prefix and salt, defaulting to `codex-app` and `local-dev`.
    pub fn from_settings(namespace_prefix: Option<String>, key_salt: Option<String>) -> (r: Self)
        ensures
            r.namespace_prefix@ == or_default(opt_view(namespace_prefix), "codex-app"@),
            r.key_salt@ == or_default(opt_view(key_salt), "local-dev"@),
    {
        CodexAppSessionSource {
            namespace_prefix: match namespace_prefix {
                Some(p) => p,
                None => String::from_str("codex-app"),
            },
            key_salt: match key_salt {
                Some(s) => s,
                None => String::from_str("local-dev"),
            },
        }
    }

    /// The handshake for a request, given how many whole seconds have passed since its
    /// observation.
    pub fn handshake_for(&self, ctx: &CodexAppRequestContext, elapsed: Option<i64>) -> (r:
        CodexAppHandshakeMeta)
        ensures
            handshake_matches(r, *self, *ctx, elapsed),
    {
        let mut namespace = self.namespace_prefix.clone();
        push_str(&mut namespace, ":");
        push_str(&mut namespace, ctx.child_account_id.as_str());
        let mut key = self.key_salt.clone();
        push_str(&mut key, ":");
        push_str(&mut key, ctx.child_account_id.as_str());
        push_str(&mut key, ":");
        push_str(&mut key, ctx.source_id.as_str());
        push_str(&mut key, ":");
        push_str(&mut key, ctx.source_page.as_str());
        let freshness = match elapsed {
            Some(v) => if v >= 0 {
                Some(v)
            } else {
                None
            },
            None => None,
        };
        CodexAppHandshakeMeta { session_namespace: namespace, session_key_hint: key, freshness_seconds: freshness }
    }

    /// The handshake for a request, its freshness measured against the current time; there
    /// is none where the observation time is not RFC 3339.
    pub fn resolve(&self, ctx: &CodexAppRequestContext) -> (r: CodexAppHandshakeMeta)
        ensures
            exists|elapsed: Option<i64>| #[trigger] handshake_matches(r, *self, *ctx, elapsed),
            clock::rfc3339_instant(ctx.observed_at@) is None ==> r.freshness_seconds is None,
            clock::rfc3339_instant(ctx.observed_at@) matches Some(at) ==> exists|now_s: int, now_n: int|
                clock::rfc3339_text(now_s, now_n) is Some && r.freshness_seconds == freshness_of(
                    Some(#[trigger] clock::whole_seconds_between(now_s, now_n, at.0, at.1) as i64),
                ),
    {
        let parsed = clock::parse_rfc3339_instant(ctx.observed_at.as_str());
        let (elapsed, now) = match parsed {
            Some(at) => {
                let now = clock::utc_now_parts();
                let secs = clock::seconds_between(now, at);
                (Some(secs), now)
            },
            None => (None, (0i64, 0u32)),
        };
        let r = self.handshake_for(ctx, elapsed);
        assert(handshake_matches(r, *self, *ctx, elapsed));
        if let Some(at) = parsed {
            let ghost ns = now.0 as int;
            let ghost nn = now.1 as int;
            assert(clock::rfc3339_text(ns, nn) is Some && r.freshness_seconds == freshness_of(
                Some(clock::whole_seconds_between(ns, nn, at.0 as int, at.1 as int) as i64),
            ));
            let ghost p = clock::rfc3339_instant(ctx.observed_at@).unwrap();
            assert(p == (at.0 as int, at.1 as int));
            assert(exists|now_s: int, now_n: int|
                clock::rfc3339_text(now_s, now_n) is Some && r.freshness_seconds == freshness_of(
                    Some(#[trigger] clock::whole_seconds_between(now_s, now_n, p.0, p.1) as i64),
                ));
        }
        r
    }
}

/// The first hint found for `field`, looked for in turn at the top level under `runtime`
/// and `handshake`, in the first choice's message, and in the first output's first content.
pub open spec fn runtime_hint(p: JsonView, field: Seq<char>) -> Option<Seq<char>> {
    let top = Some(p);
    let message = json::then_key(json::then_index(json::then_key(top, "choices"@), 0), "message"@);
    let content = json::then_index(
        json::then_key(json::then_index(json::then_key(top, "output"@), 0), "content"@),
        0,
    );
    let hints = seq![
        json::then_text(json::then_key(json::then_key(top, "runtime"@), field)),
        json::then_text(json::then_key(json::then_key(top, "handshake"@), field)),
        json::then_text(json::then_key(json::then_key(message, "runtime"@), field)),
        json::then_text(json::then_key(json::then_key(message, "handshake"@), field)),
        json::then_text(json::then_key(json::then_key(content, "runtime"@), field)),
        json::then_text(json::then_key(json::then_key(content, "handshake"@), field)),
    ];
    first_some(hints)
}

pub open spec fn first_some(s: Seq<Option<Seq<char>>>) -> Option<Seq<char>>
    decreases s.len(),
{
    if s.len() == 0 {
        None
    } else if s[0] is Some {
        s[0]
    } else {
        first_some(s.drop_first())
    }
}

/// Where the reply carries its runtime hints.
pub open spec fn runtime_hint_source(p: JsonView) -> Seq<char> {
    let top = Some(p);
    let message = json::then_key(json::then_index(json::then_key(top, "choices"@), 0), "message"@);
    let content = json::then_index(
        json::then_key(json::then_index(json::then_key(top, "output"@), 0), "content"@),
        0,
    );
    if json::then_key(top, "runtime"@) is Some {
        "top-level-runtime"@
    } else if json::then_key(top, "handshake"@) is Some {
        "top-level-handshake"@
    } else if json::then_key(message, "runtime"@) is Some {
        "chat-message-runtime"@
    } else if json::then_key(message, "handshake"@) is Some {
        "chat-message-handshake"@
    } else if json::then_key(content, "runtime"@) is Some {
        "response-content-runtime"@
    } else if json::then_key(content, "handshake"@) is Some {
        "response-content-handshake"@
    } else {
        "none"@
    }
}

/// The content of the first choice's message.
pub open spec fn chat_text(p: JsonView) -> Option<Seq<char>> {
    json::then_text(
        json::then_key(
            json::then_key(json::then_index(json::then_key(Some(p), "choices"@), 0), "message"@),
            "content"@,
        ),
    )
}

/// The text of the first output's first content.
pub open spec fn response_text(p: JsonView) -> Option<Seq<char>> {
    json::then_text(
        json::then_key(
            json::then_index(
                json::then_key(json::then_index(json::then_key(Some(p), "output"@), 0), "content"@),
                0,
            ),
            "text"@,
        ),
    )
}

fn hint_at<'a>(o: Option<&'a JsonValue>, group: &str, field: &str) -> (r: Option<&'a str>)
    ensures
        r matches Some(x) ==> json::then_text(json::then_key(json::then_key(json::opt_view(o), group@), field@)) == Some(x@),
        r is None ==> json::then_text(json::then_key(json::then_key(json::opt_view(o), group@), field@)) is None,
{
    json::opt_str(json::opt_get(json::opt_get(o, group), field))
}

fn message_of<'a>(payload: &'a JsonValue) -> (r: Option<&'a JsonValue>)
    ensures
        json::opt_view(r) == json::then_key(json::then_index(json::then_key(Some(payload@), "choices"@), 0), "message"@),
{
    json::opt_get(json::opt_at(json::json_get(payload, "choices"), 0), "message")
}

fn content_of<'a>(payload: &'a JsonValue) -> (r: Option<&'a JsonValue>)
    ensures
        json::opt_view(r) == json::then_index(
            json::then_key(json::then_index(json::then_key(Some(payload@), "output"@), 0), "content"@),
            0,
        ),
{
    json::opt_at(json::opt_get(json::opt_at(json::json_get(payload, "output"), 0), "content"), 0)
}

/// The first runtime hint for `field` that the reply carries.
pub fn extract_runtime_hint(payload: &JsonValue, field: &str) -> (r: Option<String>)
    ensures
        opt_view(r) == runtime_hint(payload@, field@),
{
    let top = Some(payload);
    let message = message_of(payload);
    let content = content_of(payload);
    let found = match hint_at(top, "runtime", field) {
        Some(v) => Some(v),
        None => match hint_at(top, "handshake", field) {
            Some(v) => Some(v),
            None => match hint_at(message, "runtime", field) {
                Some(v) => Some(v),
                None => match hint_at(message, "handshake", field) {
                    Some(v) => Some(v),
                    None => match hint_at(content, "runtime", field) {
                        Some(v) => Some(v),
                        None => hint_at(content, "handshake", field),
                    },
                },
            },
        },
    };
    proof {
        let top_v = Some(payload@);
        let m = json::then_key(json::then_index(json::then_key(top_v, "choices"@), 0), "message"@);
        let c = json::then_index(
            json::then_key(json::then_index(json::then_key(top_v, "output"@), 0), "content"@),
            0,
        );
        let hints = seq![
            json::then_text(json::then_key(json::then_key(top_v, "runtime"@), field@)),
            json::then_text(json::then_key(json::then_key(top_v, "handshake"@), field@)),
            json::then_text(json::then_key(json::then_key(m, "runtime"@), field@)),
            json::then_text(json::then_key(json::then_key(m, "handshake"@), field@)),
            json::then_text(json::then_key(json::then_key(c, "runtime"@), field@)),
            json::then_text(json::then_key(json::then_key(c, "handshake"@), field@)),
        ];
        assert(hints.drop_first()[0] == hints[1]);
        assert(hints.drop_first().drop_first()[0] == hints[2]);
        assert(hints.drop_first().drop_first().drop_first()[0] == hints[3]);
        assert(hints.drop_first().drop_first().drop_first().drop_first()[0] == hints[4]);
        assert(hints.drop_first().drop_first().drop_first().drop_first().drop_first()[0] == hints[5]);
        assert(hints.drop_first().drop_first().drop_first().drop_first().drop_first().drop_first().len() == 0);
        reveal_with_fuel(first_some, 7);
    }
    match found {
        Some(v) => Some(String::from_str(v)),
        None => None,
    }
}

/// Where the reply carries its runtime hints, as a label.
pub fn describe_runtime_hint_source(payload: &JsonValue) -> (r: &'static str)
    ensures
        r@ == runtime_hint_source(payload@),
{
    let message = message_of(payload);
    let content = content_of(payload);
    if json::json_get(payload, "runtime").is_some() {
        "top-level-runtime"
    } else if json::json_get(payload, "handshake").is_some() {
        "top-level-handshake"
    } else if json::opt_get(message, "runtime").is_some() {
        "chat-message-runtime"
    } else if json::opt_get(message, "handshake").is_some() {
        "chat-message-handshake"
    } else if json::opt_get(content, "runtime").is_some() {
        "response-content-runtime"
    } else if json::opt_get(content, "handshake").is_some() {
        "response-content-handshake"
    } else {
        "none"
    }
}

/// The content of the reply's first choice, or an error naming an unreadable chat reply.
pub fn extract_chat_text(payload: &JsonValue) -> (r: Result<String, String>)
    ensures
        match (r, chat_text(payload@)) {
            (Ok(t), Some(u)) => t@ == u,
            (Err(e), None) => e@ == "invalid_openclaw_ws_chat_payload"@,
            _ => false,
        },
{
    match json::opt_str(json::opt_get(message_of(payload), "content")) {
        Some(t) => Ok(String::from_str(t)),
        None => Err(String::from_str("invalid_openclaw_ws_chat_payload")),
    }
}

/// The text of the reply's first output, or an error naming an unreadable response reply.
pub fn extract_response_text(payload: &JsonValue) -> (r: Result<String, String>)
    ensures
        match (r, response_text(payload@)) {
            (Ok(t), Some(u)) => t@ == u,
            (Err(e), None) => e@ == "invalid_openclaw_ws_response_payload"@,
            _ => false,
        },
{
    match json::opt_str(json::opt_get(content_of(payload), "text")) {
        Some(t) => Ok(String::from_str(t)),
        None => Err(String::from_str("invalid_openclaw_ws_response_payload")),
    }
}

pub open spec fn freshness_text(f: Option<i64>) -> Seq<char> {
    match f {
        Some(v) => text::int_text(v as int),
        None => "unknown"@,
    }
}

/// The adapter's report of a bridged request.
pub open spec fn adapter_output(
    ctx: CodexAppRequestContext,
    h: CodexAppHandshakeMeta,
    source: Seq<char>,
    namespace: Option<Seq<char>>,
    key_hint: Option<Seq<char>>,
    output: Seq<char>,
) -> Seq<char> {
    "codex-app-adapter child="@ + ctx.child_account_id@ + " observed_at="@ + ctx.observed_at@
        + " source="@ + ctx.source_id@ + " page="@ + ctx.source_page@ + " session_namespace="@
        + h.session_namespace@ + " session_key_hint="@ + h.session_key_hint@
        + " freshness_seconds="@ + freshness_text(h.freshness_seconds) + " runtime_source="@
        + source + " runtime_session_namespace="@ + or_default(namespace, "none"@)
        + " runtime_session_key_hint="@ + or_default(key_hint, "none"@) + " via openclaw-ws output="@
        + output
}

fn compose_output(
    ctx: &CodexAppRequestContext,
    h: &CodexAppHandshakeMeta,
    source: &str,
    namespace: &Option<String>,
    key_hint: &Option<String>,
    output: &str,
) -> (r: String)
    ensures
        r@ == adapter_output(*ctx, *h, source@, opt_view(*namespace), opt_view(*key_hint), output@),
{
    let mut s = String::from_str("codex-app-adapter child=");
    push_str(&mut s, ctx.child_account_id.as_str());
    push_str(&mut s, " observed_at=");
    push_str(&mut s, ctx.observed_at.as_str());
    push_str(&mut s, " source=");
    push_str(&mut s, ctx.source_id.as_str());
    push_str(&mut s, " page=");
    push_str(&mut s, ctx.source_page.as_str());
    push_str(&mut s, " session_namespace=");
    push_str(&mut s, h.session_namespace.as_str());
    push_str(&mut s, " session_key_hint=");
    push_str(&mut s, h.session_key_hint.as_str());
    push_str(&mut s, " freshness_seconds=");
    match h.freshness_seconds {
        Some(v) => {
            let t = text::i64_to_text(v);
            push_str(&mut s, t.as_str());
        },
        None => push_str(&mut s, "unknown"),
    }
    push_str(&mut s, " runtime_source=");
    push_str(&mut s, source);
    push_str(&mut s, " runtime_session_namespace=");
    match namespace {
        Some(v) => push_str(&mut s, v.as_str()),
        None => push_str(&mut s, "none"),
    }
    push_str(&mut s, " runtime_session_key_hint=");
    match key_hint {
        Some(v) => push_str(&mut s, v.as_str()),
        None => push_str(&mut s, "none"),
    }
    push_str(&mut s, " via openclaw-ws output=");
    push_str(&mut s, output);
    s
}

/// What the adapter reports of a bridged chat: the reply's text with the request, the
/// handshake and the reply's runtime hints.
pub open spec fn chat_report(
    ctx: CodexAppRequestContext,
    h: CodexAppHandshakeMeta,
    p: JsonView,
) -> Result<Seq<char>, Seq<char>> {
    match chat_text(p) {
        Some(t) => Ok(
            adapter_output(
                ctx,
                h,
                runtime_hint_source(p),
                runtime_hint(p, "session_namespace"@),
                runtime_hint(p, "session_key_hint"@),
                t,
            ),
        ),
        None => Err("invalid_openclaw_ws_chat_payload"@),
    }
}

/// What the adapter reports of a bridged response.
pub open spec fn response_report(
    ctx: CodexAppRequestContext,
    h: CodexAppHandshakeMeta,
    p: JsonView,
) -> Result<Seq<char>, Seq<char>> {
    match response_text(p) {
        Some(t) => Ok(
            adapter_output(
                ctx,
                h,
                runtime_hint_source(p),
                runtime_hint(p, "session_namespace"@),
                runtime_hint(p, "session_key_hint"@),
                t,
            ),
        ),
        None => Err("invalid_openclaw_ws_response_payload"@),
    }
}

pub open spec fn same_result(r: Result<String, String>, s: Result<Seq<char>, Seq<char>>) -> bool {
    match (r, s) {
        (Ok(a), Ok(b)) => a@ == b,
        (Err(a), Err(b)) => a@ == b,
        _ => false,
    }
}

/// The adapter in front of the websocket client.
pub struct CodexAppAdapter {
    pub dsn: String,
    pub ws_client: Option<Arc<OpenClawWsClient>>,
}

impl CodexAppAdapter {
    pub fn new(dsn: String, ws_client: Option<Arc<OpenClawWsClient>>) -> (r: Self)
        ensures
            r.dsn@ == dsn@,
            r.ws_client == ws_client,
    {
        CodexAppAdapter { dsn, ws_client }
    }

    /// The handshake to send, or an error where the adapter has no websocket client.
    pub fn prepare(&self, source: &CodexAppSessionSource, ctx: &CodexAppRequestContext) -> (r:
        Result<CodexAppHandshakeMeta, String>)
        ensures
            self.ws_client is None ==> (r matches Err(e) && e@ == "missing_openclaw_ws_client"@),
            self.ws_client is Some ==> (r matches Ok(h) && exists|elapsed: Option<i64>|
                #[trigger] handshake_matches(h, *source, *ctx, elapsed)),
            r matches Ok(h) ==> (clock::rfc3339_instant(ctx.observed_at@) is None ==> h.freshness_seconds is None),
            r matches Ok(h) ==> (clock::rfc3339_instant(ctx.observed_at@) matches Some(at) ==> exists|now_s: int, now_n: int|
                clock::rfc3339_text(now_s, now_n) is Some && h.freshness_seconds == freshness_of(
                    Some(#[trigger] clock::whole_seconds_between(now_s, now_n, at.0, at.1) as i64),
                )),
    {
        match &self.ws_client {
            None => Err(String::from_str("missing_openclaw_ws_client")),
            Some(_) => Ok(source.resolve(ctx)),
        }
    }

    /// The report of a bridged chat, from the bridge's reply.
    pub fn finish_chat(ctx: &CodexAppRequestContext, h: &CodexAppHandshakeMeta, payload: &JsonValue) -> (r:
        Result<String, String>)
        ensures
            same_result(r, chat_report(*ctx, *h, payload@)),
    {
        let namespace = extract_runtime_hint(payload, "session_namespace");
        let key_hint = extract_runtime_hint(payload, "session_key_hint");
        let source = describe_runtime_hint_source(payload);
        match extract_chat_text(payload) {
            Ok(t) => Ok(compose_output(ctx, h, source, &namespace, &key_hint, t.as_str())),
            Err(e) => Err(e),
        }
    }

    /// The report of a bridged response, from the bridge's reply.
    pub fn finish_response(ctx: &CodexAppRequestContext, h: &CodexAppHandshakeMeta, payload: &JsonValue) -> (r:
        Result<String, String>)
        ensures
            same_result(r, response_report(*ctx, *h, payload@)),
    {
        let namespace = extract_runtime_hint(payload, "session_namespace");
        let key_hint = extract_runtime_hint(payload, "session_key_hint");
        let source = describe_runtime_hint_source(payload);
        match extract_response_text(payload) {
            Ok(t) => Ok(compose_output(ctx, h, source, &namespace, &key_hint, t.as_str())),
            Err(e) => Err(e),
        }
    }
}

} // verus!
