use openclaw_openai_gateway::adapter::{
    describe_runtime_hint_source, extract_chat_text, extract_response_text, extract_runtime_hint,
    CodexAppAdapter, CodexAppHandshakeMeta, CodexAppRequestContext, CodexAppSessionSource,
};
use openclaw_openai_gateway::bridge::{map_codex_app_chat_request, map_codex_app_response_request};
use openclaw_openai_gateway::json::{to_json_text, JsonValue};
use openclaw_openai_gateway::transport::{OpenClawWsClient, OpenClawWsTransportMode};
use std::sync::Arc;

fn s(v: &str) -> JsonValue {
    JsonValue::Str(v.to_string())
}

fn obj(entries: Vec<(&str, JsonValue)>) -> JsonValue {
    JsonValue::Object(entries.into_iter().map(|(k, v)| (k.to_string(), v)).collect())
}

fn ctx(observed_at: &str) -> CodexAppRequestContext {
    CodexAppRequestContext {
        child_account_id: "child:a".to_string(),
        source_id: "codex-app".to_string(),
        source_page: "/codex".to_string(),
        observed_at: observed_at.to_string(),
        runtime_session_namespace: None,
        runtime_session_key_hint: None,
    }
}

#[test]
fn the_handshake_is_keyed_by_account_source_and_page() {
    let source = CodexAppSessionSource::from_settings(None, Some("salt".to_string()));
    assert_eq!(source.namespace_prefix, "codex-app");
    assert_eq!(source.key_salt, "salt");
    let h = source.handshake_for(&ctx("x"), Some(42));
    assert_eq!(h.session_namespace, "codex-app:child:a");
    assert_eq!(h.session_key_hint, "salt:child:a:codex-app:/codex");
    assert_eq!(h.freshness_seconds, Some(42));
    assert_eq!(source.handshake_for(&ctx("x"), Some(-1)).freshness_seconds, None);
}

#[test]
fn freshness_is_measured_from_an_rfc3339_observation_time() {
    let source = CodexAppSessionSource::from_settings(Some("ns".to_string()), None);
    let old = source.resolve(&ctx("2020-01-01T00:00:00Z"));
    assert_eq!(old.session_namespace, "ns:child:a");
    assert_eq!(old.session_key_hint, "local-dev:child:a:codex-app:/codex");
    assert!(old.freshness_seconds.unwrap() > 100_000_000);
    assert_eq!(source.resolve(&ctx("yesterday")).freshness_seconds, None);
    assert_eq!(source.resolve(&ctx("2999-01-01T00:00:00+00:00")).freshness_seconds, None);
}

#[test]
fn runtime_hints_are_looked_for_in_order() {
    let chat = obj(vec![(
        "choices",
        JsonValue::Array(vec![obj(vec![(
            "message",
            obj(vec![
                ("content", s("hi")),
                ("handshake", obj(vec![("session_namespace", s("msg-ns"))])),
            ]),
        )])]),
    )]);
    assert_eq!(extract_runtime_hint(&chat, "session_namespace"), Some("msg-ns".to_string()));
    assert_eq!(extract_runtime_hint(&chat, "session_key_hint"), None);
    assert_eq!(describe_runtime_hint_source(&chat), "chat-message-handshake");
    assert_eq!(extract_chat_text(&chat), Ok("hi".to_string()));
    assert_eq!(extract_response_text(&chat), Err("invalid_openclaw_ws_response_payload".to_string()));
    let top = obj(vec![("runtime", obj(vec![("session_key_hint", s("k"))])), ("handshake", obj(vec![]))]);
    assert_eq!(describe_runtime_hint_source(&top), "top-level-runtime");
    assert_eq!(extract_runtime_hint(&top, "session_key_hint"), Some("k".to_string()));
    assert_eq!(describe_runtime_hint_source(&JsonValue::Null), "none");
}

#[test]
fn the_adapter_reports_the_bridged_text_with_its_handshake() {
    let adapter = CodexAppAdapter::new("db".to_string(), None);
    let source = CodexAppSessionSource::from_settings(None, None);
    assert_eq!(adapter.prepare(&source, &ctx("x")).err(), Some("missing_openclaw_ws_client".to_string()));
    let client = Arc::new(OpenClawWsClient::new("ws://x".to_string(), 5, OpenClawWsTransportMode::Real));
    let with_client = CodexAppAdapter::new("db".to_string(), Some(client.clone()));
    let h = with_client.prepare(&source, &ctx("x")).ok().unwrap();
    assert_eq!(h.session_namespace, "codex-app:child:a");
    let payload = obj(vec![(
        "output",
        JsonValue::Array(vec![obj(vec![(
            "content",
            JsonValue::Array(vec![obj(vec![
                ("text", s("done")),
                ("runtime", obj(vec![("session_namespace", s("rt-ns"))])),
            ])]),
        )])]),
    )]);
    let meta = CodexAppHandshakeMeta {
        session_namespace: "n".to_string(),
        session_key_hint: "k".to_string(),
        freshness_seconds: None,
    };
    let report = CodexAppAdapter::finish_response(&ctx("t0"), &meta, &payload).unwrap();
    assert_eq!(
        report,
        "codex-app-adapter child=child:a observed_at=t0 source=codex-app page=/codex session_namespace=n session_key_hint=k freshness_seconds=unknown runtime_source=response-content-runtime runtime_session_namespace=rt-ns runtime_session_key_hint=none via openclaw-ws output=done"
    );
    assert_eq!(
        CodexAppAdapter::finish_chat(&ctx("t0"), &meta, &payload).err(),
        Some("invalid_openclaw_ws_chat_payload".to_string())
    );
    assert_eq!(client.codex_app_transport(true).ok(), Some(OpenClawWsTransportMode::Real));
    assert_eq!(client.codex_app_transport(false).err(), Some("upstream unavailable".to_string()));
}

#[test]
fn codex_app_requests_carry_the_handshake() {
    let chat = map_codex_app_chat_request("m", "hi", "ns", "kh", Some(7));
    assert_eq!(
        to_json_text(&chat),
        "{\"handshake\":{\"freshness_seconds\":7,\"session_key_hint\":\"kh\",\"session_namespace\":\"ns\"},\"input\":{\"messages\":[{\"content\":\"hi\",\"role\":\"user\"}]},\"model\":\"m\",\"source\":\"codex-app\",\"type\":\"codex.app.chat.create\"}"
    );
    let resp = map_codex_app_response_request("m", "in", "ns", "kh", None);
    assert_eq!(
        to_json_text(&resp),
        "{\"handshake\":{\"freshness_seconds\":null,\"session_key_hint\":\"kh\",\"session_namespace\":\"ns\"},\"input\":\"in\",\"model\":\"m\",\"source\":\"codex-app\",\"type\":\"codex.app.response.create\"}"
    );
}
