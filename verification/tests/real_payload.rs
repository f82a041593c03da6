use openclaw_openai_gateway::bridge::{frame_payload, invalid_payload_error, normalize_real_payload, FramePayload, WsFrame};
use tokio_tungstenite::tungstenite::Message;
use openclaw_openai_gateway::json::{json_as_str, json_at, json_get, to_json_text, JsonValue};

fn s(v: &str) -> JsonValue {
    JsonValue::Str(v.to_string())
}

fn obj(entries: Vec<(&str, JsonValue)>) -> JsonValue {
    JsonValue::Object(entries.into_iter().map(|(k, v)| (k.to_string(), v)).collect())
}

fn text_at<'a>(v: &'a JsonValue, path: &[&str]) -> Option<&'a str> {
    let mut cur = v;
    for step in path {
        cur = match step.parse::<usize>() {
            Ok(i) => json_at(cur, i)?,
            Err(_) => json_get(cur, step)?,
        };
    }
    json_as_str(cur)
}

#[test]
fn normalize_real_payload_unwraps_bridge_response_shape() {
    let payload = obj(vec![(
        "upstream_payload",
        obj(vec![
            ("runtime", obj(vec![("session_namespace", s("real-ns"))])),
            ("choices", JsonValue::Array(vec![obj(vec![("message", obj(vec![("content", s("ok"))]))])])),
        ]),
    )]);
    let parsed = normalize_real_payload(payload).unwrap();
    assert_eq!(text_at(&parsed, &["runtime", "session_namespace"]), Some("real-ns"));
}

#[test]
fn normalize_real_payload_returns_upstream_error() {
    let payload = obj(vec![("error", obj(vec![("code", s("bad_upstream")), ("message", s("boom"))]))]);
    let err = normalize_real_payload(payload).err().unwrap();
    assert!(err.starts_with("real_ws_upstream_error:"));
    assert_eq!(err, "real_ws_upstream_error:{\"code\":\"bad_upstream\",\"message\":\"boom\"}");
}

#[test]
fn normalize_real_payload_keeps_nested_runtime_shape_for_followup_extractors() {
    let payload = obj(vec![(
        "upstream_payload",
        obj(vec![(
            "output",
            JsonValue::Array(vec![obj(vec![(
                "content",
                JsonValue::Array(vec![obj(vec![
                    (
                        "handshake",
                        obj(vec![("session_namespace", s("resp-ns")), ("session_key_hint", s("resp-key"))]),
                    ),
                    ("text", s("ok")),
                ])]),
            )])]),
        )]),
    )]);
    let parsed = normalize_real_payload(payload).unwrap();
    assert_eq!(text_at(&parsed, &["output", "0", "content", "0", "handshake", "session_namespace"]), Some("resp-ns"));
    assert_eq!(text_at(&parsed, &["output", "0", "content", "0", "handshake", "session_key_hint"]), Some("resp-key"));
}

#[test]
fn normalize_real_payload_passes_a_plain_reply_through() {
    let payload = obj(vec![("ok", JsonValue::Bool(true))]);
    let parsed = normalize_real_payload(payload).unwrap();
    assert_eq!(to_json_text(&parsed), "{\"ok\":true}");
}

#[test]
fn json_text_escapes_quotes_controls_and_keeps_unicode() {
    let v = obj(vec![
        ("a", s("x\"y\\z\n\u{1}")),
        ("b", JsonValue::Array(vec![JsonValue::Null, JsonValue::Number("12".to_string()), s("é")])),
    ]);
    assert_eq!(to_json_text(&v), "{\"a\":\"x\\\"y\\\\z\\n\\u0001\",\"b\":[null,12,\"é\"]}");
}

#[test]
fn parse_ws_message_rejects_ping_frames() {
    let ping = Message::Ping(vec![1, 2, 3].into());
    let err = match frame_payload(WsFrame::Other(format!("{:?}", ping))) {
        Ok(_) => panic!("a ping frame carries no payload"),
        Err(e) => e,
    };
    assert!(err.starts_with("real_ws_unexpected_message_type:"));
}

#[test]
fn data_frames_hand_their_payload_on_and_close_frames_end() {
    match frame_payload(WsFrame::Text("{\"ok\":true}".to_string())) {
        Ok(FramePayload::Text(t)) => assert_eq!(t, "{\"ok\":true}"),
        _ => panic!("a text frame carries its text"),
    }
    match frame_payload(WsFrame::Binary(vec![123, 125])) {
        Ok(FramePayload::Binary(b)) => assert_eq!(b, vec![123, 125]),
        _ => panic!("a binary frame carries its bytes"),
    }
    match frame_payload(WsFrame::Close) {
        Err(e) => assert_eq!(e, "real_ws_connection_closed"),
        Ok(_) => panic!("a close frame carries no payload"),
    }
    assert_eq!(invalid_payload_error(&FramePayload::Text("x".to_string()), "eof"), "real_ws_invalid_json:eof");
    assert_eq!(invalid_payload_error(&FramePayload::Binary(vec![1]), "eof"), "real_ws_invalid_binary_json:eof");
}
