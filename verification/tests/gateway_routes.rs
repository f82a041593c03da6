use openclaw_openai_gateway::admission::PoolMember;
use openclaw_openai_gateway::domain::{
    default_codex_quota_sources, default_provider_pool, load_from_config, ModelCatalogEntry, ProviderClass,
    ProviderDescriptor,
};
use openclaw_openai_gateway::errors::AppError;
use openclaw_openai_gateway::json::{json_as_str, json_at, json_get, to_json_text, JsonValue};
use openclaw_openai_gateway::middleware::authorize;
use openclaw_openai_gateway::observability::explain::explain;
use openclaw_openai_gateway::pool::QuotaContextRow;
use openclaw_openai_gateway::providers::{from_config, ApiProvider, GatewayProvider, LocalProvider};
use openclaw_openai_gateway::repos::{AuditRepository, InMemoryStore};
use openclaw_openai_gateway::routes::chat::{create_chat_completion, ChatCompletionRequest, ChatMessage};
use openclaw_openai_gateway::routes::codex::{
    admit_collected, collect_codex_quota, failed_snapshot_at, get_codex_quota_overview, list_codex_quota_sources, map_source,
    recover_dead_letters,
};
use openclaw_openai_gateway::routes::health::{healthz, readyz};
use openclaw_openai_gateway::routes::models::list_models_at;
use openclaw_openai_gateway::routes::ops::{ops_posture, quota_snapshot_stats, status_breakdown, status_counts, StatusCount};
use openclaw_openai_gateway::routes::providers::list_providers;
use openclaw_openai_gateway::routes::responses::{create_response, ResponsesRequest};
use openclaw_openai_gateway::routing::{decide_provider, default_policy};
use openclaw_openai_gateway::config::{Config, ConfigSettings};
use openclaw_openai_gateway::transport::{OpenClawWsClient, OpenClawWsTransportMode};
use std::sync::Arc;

fn member(child: &str, level: &str, weight: i64) -> PoolMember {
    PoolMember {
        id: format!("pool-{}", child),
        child_account_id: child.to_string(),
        pool_status: "active".to_string(),
        admission_level: level.to_string(),
        weight,
        current_load: 0,
        cooldown_until: None,
        last_success_at: None,
        last_failure_at: None,
    }
}

fn observation(child: &str, at: &str, ok: bool) -> QuotaContextRow {
    QuotaContextRow {
        child_account_id: child.to_string(),
        source_id: Some("codex-app".to_string()),
        source_page: Some("/codex".to_string()),
        observed_at: at.to_string(),
        read_ok: ok,
    }
}

fn text_at<'a>(v: &'a JsonValue, path: &[&str]) -> Option<&'a str> {
    let mut cur = v;
    for step in path {
        cur = match step.parse::<usize>() {
            Ok(i) => json_at(cur, i)?,
            Err(_) => json_get(cur, step)?,
        };
    }
    json_as_str(cur)
}

#[test]
fn health_and_readiness_answers() {
    assert_eq!(healthz().status, "ok");
    let ready = readyz(true, 3).unwrap();
    assert_eq!(ready.status, "ready");
    assert_eq!(ready.upstream, "ok");
    assert_eq!(ready.providers_total, 3);
    assert!(readyz(false, 3).err() == Some(AppError::UpstreamUnavailable));
}

#[test]
fn errors_answer_with_their_status_and_body() {
    assert_eq!(AppError::InvalidApiKey.status_code(), 401);
    assert_eq!(AppError::UpstreamUnavailable.status_code(), 503);
    assert_eq!(AppError::NoHealthyPoolMember.status_code(), 503);
    assert_eq!(AppError::Internal.status_code(), 500);
    assert_eq!(
        to_json_text(&AppError::InvalidApiKey.error_body()),
        "{\"error\":{\"message\":\"invalid api key\",\"type\":\"authentication_error\",\"code\":\"invalid_api_key\"}}"
    );
    assert_eq!(AppError::NoHealthyPoolMember.message(), "no healthy pool member");
    assert_eq!(AppError::NoHealthyPoolMember.code(), "no_healthy_pool_member");
    assert_eq!(AppError::UpstreamUnavailable.error_type(), "service_unavailable_error");
    assert_eq!(AppError::Internal.code(), "internal_error");
    assert_eq!(AppError::Internal.error_type(), "internal_server_error");
}

#[test]
fn only_known_keys_pass_except_on_the_health_routes() {
    let keys = vec!["k1".to_string(), "k2".to_string()];
    assert!(authorize("/healthz", None, &keys).is_ok());
    assert!(authorize("/readyz", Some("junk"), &keys).is_ok());
    assert!(authorize("/v1/models", Some("Bearer k2"), &keys).is_ok());
    assert!(authorize("/v1/models", Some("Bearer k3"), &keys).err() == Some(AppError::InvalidApiKey));
    assert!(authorize("/v1/models", Some("k1"), &keys).is_err());
    assert!(authorize("/v1/models", None, &keys).is_err());
    assert!(authorize("/v1/models", Some("bearer k1"), &keys).is_err());
}

#[test]
fn models_are_listed_under_their_alias_and_owner() {
    let entries = vec![
        ModelCatalogEntry { canonical_name: "gpt-x".to_string(), alias: Some("x".to_string()), provider_hint: None },
        ModelCatalogEntry { canonical_name: "gpt-y".to_string(), alias: None, provider_hint: Some("gateway.openclaw".to_string()) },
    ];
    let list = list_models_at(&entries, 1700);
    assert_eq!(list.object, "list");
    assert_eq!(list.data.len(), 2);
    assert_eq!(list.data[0].id, "x");
    assert_eq!(list.data[0].owned_by, "openclaw");
    assert_eq!(list.data[0].object, "model");
    assert_eq!(list.data[0].created, 1700);
    assert_eq!(list.data[1].id, "gpt-y");
    assert_eq!(list.data[1].owned_by, "gateway.openclaw");
    let configured = load_from_config(&["m1".to_string()]);
    assert_eq!(configured[0].provider_hint.as_deref(), Some("gateway.openclaw"));
}

#[test]
fn providers_are_listed_by_class_name() {
    let pool = default_provider_pool();
    let list = list_providers(&pool);
    assert_eq!(list.data.len(), 1);
    assert_eq!(list.data[0].id, "gateway.openclaw");
    assert_eq!(list.data[0].class, "Gateway");
    assert!(list.data[0].enabled);
}

#[test]
fn echo_providers_answer_with_what_they_are_sent() {
    assert!(!ApiProvider.check_ready());
    assert!(LocalProvider.check_ready());
    let v = ApiProvider.chat("m", "hi").unwrap();
    assert_eq!(to_json_text(&v), "{\"echo\":\"hi\",\"model\":\"m\",\"provider\":\"api\"}");
    let w = LocalProvider.response("m", "in").unwrap();
    assert_eq!(to_json_text(&w), "{\"echo\":\"in\",\"model\":\"m\",\"provider\":\"local\"}");
}

fn gateway() -> GatewayProvider {
    GatewayProvider::new(Arc::new(OpenClawWsClient::new("ws://x".to_string(), 10, OpenClawWsTransportMode::Mock)))
}

#[test]
fn chat_goes_through_the_gateway_with_the_last_message() {
    let req = ChatCompletionRequest {
        model: "m".to_string(),
        messages: vec![
            ChatMessage { role: "system".to_string(), content: "be brief".to_string() },
            ChatMessage { role: "user".to_string(), content: "hello".to_string() },
        ],
        stream: None,
    };
    assert_eq!(req.user_text(), "hello");
    let reply = create_chat_completion(&req, &gateway(), true).unwrap();
    assert_eq!(reply.routing_explain, "model=m provider=gateway.openclaw reason=sqlite-backed provider selected");
    assert_eq!(text_at(&reply.body, &["choices", "0", "message", "content"]), Some("proxy mapped: hello"));
    assert_eq!(text_at(&reply.body, &["object"]), Some("chat.completion"));
    assert!(text_at(&reply.body, &["id"]).unwrap().starts_with("chatcmpl-proxy-"));
    assert!(create_chat_completion(&req, &gateway(), false).err() == Some(AppError::UpstreamUnavailable));
    let empty = ChatCompletionRequest { model: "m".to_string(), messages: vec![], stream: Some(false) };
    assert_eq!(empty.user_text(), "");
}

#[test]
fn routing_explains_the_first_enabled_provider() {
    let providers = vec![
        ProviderDescriptor { id: "off".to_string(), class: ProviderClass::Api, enabled: false, base_url: None, api_key_hint: None },
        ProviderDescriptor { id: "local.1".to_string(), class: ProviderClass::Local, enabled: true, base_url: None, api_key_hint: None },
    ];
    let d = decide_provider("m", &default_policy(), Some(providers.as_slice()));
    assert_eq!(explain(&d), "model=m provider=local.1 reason=sqlite-backed provider selected");
    let none = decide_provider("m", &default_policy(), Some(&providers[..1]));
    assert_eq!(none.selected_provider, "gateway.openclaw");
}

fn request() -> ResponsesRequest {
    ResponsesRequest { model: "m".to_string(), input: "hi".to_string(), stream: None }
}

#[test]
fn responses_are_served_by_the_routed_member() {
    let audit = AuditRepository::new();
    let mut store = InMemoryStore::new();
    let members = vec![member("child:a", "green", 100), member("child:b", "yellow", 30)];
    let obs = vec![observation("child:a", "2024-01-01T00:00:00Z", true)];
    let reply = create_response(&request(), None, &audit, &mut store, Some(members.as_slice()), &obs, "db", "mock").reply.unwrap();
    assert_eq!(reply.routing_explain, "model=m provider=gateway.openclaw reason=sqlite-backed provider selected");
    assert_eq!(reply.audit_action, "routing.decision");
    assert_eq!(reply.pool_child_account_id, "child:a");
    assert_eq!(reply.pool_admission_level, "green");
    assert_eq!(
        text_at(&reply.body, &["output", "0", "content", "0", "text"]),
        Some("codex routed via child:a [green] source=codex-app page=/codex: mock-session-bridge source=codex-app page=/codex input=hi")
    );
    assert!(text_at(&reply.body, &["id"]).unwrap().starts_with("resp-codex-"));
    assert_eq!(audit.list(&store), vec!["model=m provider=gateway.openclaw reason=sqlite-backed provider selected".to_string()]);
}

#[test]
fn responses_fail_as_the_pool_and_bridge_allow() {
    let audit = AuditRepository::new();
    let mut store = InMemoryStore::new();
    let obs = vec![observation("child:a", "t", true)];
    assert!(create_response(&request(), None, &audit, &mut store, None, &obs, "db", "mock").reply.err() == Some(AppError::Internal));
    assert!(create_response(&request(), None, &audit, &mut store, Some(&[][..]), &obs, "db", "mock").reply.err() == Some(AppError::NoHealthyPoolMember));
    let members = vec![member("child:a", "green", 100)];
    assert!(create_response(&request(), None, &audit, &mut store, Some(members.as_slice()), &[], "db", "mock").reply.err() == Some(AppError::UpstreamUnavailable));
    assert!(create_response(&request(), None, &audit, &mut store, Some(members.as_slice()), &obs, "db", "real").reply.err() == Some(AppError::UpstreamUnavailable));
    assert_eq!(audit.list(&store).len(), 4);
}

#[test]
fn quota_sources_are_listed_with_their_kind() {
    let list = list_codex_quota_sources();
    assert_eq!(list.data.len(), 2);
    assert_eq!(list.data[0].id, "codex-app");
    assert_eq!(list.data[0].kind, "CodexApp");
    assert_eq!(list.data[1].kind, "CodexWeb");
    assert_eq!(list.data[1].observation_path, "/codex");
    let item = map_source(default_codex_quota_sources().remove(1));
    assert_eq!(item.display_name, "Codex Web");
    assert_eq!(item.provider_id, "codex.web");
}

#[test]
fn the_overview_counts_reads_and_failures() {
    let rows = vec![
        observation("a", "2024-01-02T00:00:00Z", true),
        observation("b", "2024-01-03T00:00:00Z", false),
        observation("c", "2024-01-01T00:00:00Z", true),
    ];
    let o = get_codex_quota_overview(&rows).data;
    assert_eq!(o.sources_total, 2);
    assert_eq!(o.sources_enabled, 2);
    assert_eq!(o.observations_total, 3);
    assert_eq!(o.read_ok_total, 2);
    assert_eq!(o.read_failed_total, 1);
    assert_eq!(o.latest_observed_at.as_deref(), Some("2024-01-03T00:00:00Z"));
    let empty = get_codex_quota_overview(&[]).data;
    assert_eq!(empty.latest_observed_at, None);
    let stats = quota_snapshot_stats(&rows);
    assert_eq!((stats.total, stats.read_ok_total, stats.read_failed_total), (3, 2, 1));
}

#[test]
fn a_collection_reports_the_admission_and_the_kept_member() {
    let snap = failed_snapshot_at("disk full".to_string(), "t0".to_string());
    assert_eq!(snap.id, "quota-collect-failed");
    assert_eq!(snap.child_account_id, "unknown");
    assert_eq!(snap.confidence_hundredths, Some(0));
    let admitted = admit_collected(Err("disk full".to_string()));
    assert_eq!(admitted.decision.pool_member.pool_status, "cooling");
    let out = collect_codex_quota(admitted, Some(vec![]));
    assert_eq!(out.data.error_reason.as_deref(), Some("disk full"));
    assert!(!out.data.read_ok);
    assert_eq!(out.admission.admission_level, "red");
    assert_eq!(out.admission.reasons, vec!["quota_read_failed"]);
    assert_eq!(out.persisted_pool_member.child_account_id, "unknown");
    assert_eq!(out.persisted_pool_member.weight, 0);
}

#[test]
fn a_collection_reports_the_row_the_table_holds_after_the_write() {
    let admitted = admit_collected(Err("disk full".to_string()));
    let old_row = PoolMember {
        id: "pool-old".to_string(),
        child_account_id: "unknown".to_string(),
        pool_status: "active".to_string(),
        admission_level: "green".to_string(),
        weight: 100,
        current_load: 0,
        cooldown_until: None,
        last_success_at: None,
        last_failure_at: None,
    };
    let out = collect_codex_quota(admitted, Some(vec![old_row]));
    assert_eq!(out.admission.admission_level, "red");
    assert_eq!(out.persisted_pool_member.pool_status, "active");
    assert_eq!(out.persisted_pool_member.admission_level, "green");
    assert_eq!(out.persisted_pool_member.weight, 100);
    let unread = collect_codex_quota(admit_collected(Err("x".to_string())), None);
    assert_eq!(unread.persisted_pool_member.admission_level, "red");
}

#[test]
fn statuses_are_summed_by_class() {
    let details = vec![
        StatusCount { status: "pending".to_string(), count: 4 },
        StatusCount { status: "completed".to_string(), count: 3 },
        StatusCount { status: "retry_wait".to_string(), count: 2 },
        StatusCount { status: "dead_letter".to_string(), count: 1 },
        StatusCount { status: "weird".to_string(), count: 7 },
    ];
    let b = status_breakdown(17, details);
    assert_eq!(b.total, 17);
    assert_eq!(b.active_like, 7);
    assert_eq!(b.blocked_like, 2);
    assert_eq!(b.failed_like, 1);
    assert_eq!(b.details.len(), 5);
    let posture = ops_posture();
    assert_eq!(posture.service_mode, "headless-api-worker");
    assert_eq!(posture.listeners.dashboard_bind, "127.0.0.1");
    assert_eq!(posture.recommendations.len(), 3);
}

#[test]
fn dead_letters_are_requeued_by_id() {
    let r = recover_dead_letters(vec!["a".to_string(), "b".to_string()]);
    assert_eq!(r.requeued, 2);
    assert_eq!(r.task_ids, vec!["a", "b"]);
}

fn settings() -> ConfigSettings {
    ConfigSettings {
        app_host: None,
        app_port: None,
        openclaw_ws_url: None,
        openclaw_api_timeout_ms: None,
        api_keys: None,
        models: None,
        sqlite_path: None,
        openclaw_ws_transport_mode: None,
        codex_session_bridge_mode: None,
        third_party_provider_id: None,
        third_party_base_url: None,
        third_party_api_key: None,
        third_party_model: None,
        fingerprint_browser_provider: None,
        fingerprint_browser_base_url: None,
        fingerprint_browser_api_key: None,
    }
}

#[test]
fn settings_default_when_unset() {
    let c = Config::from_settings(settings()).unwrap();
    assert_eq!(c.app_host, "127.0.0.1");
    assert_eq!(c.app_port, 8080);
    assert_eq!(c.openclaw_ws_url, "ws://127.0.0.1:18789");
    assert_eq!(c.openclaw_api_timeout_ms, 15000);
    assert_eq!(c.openclaw_ws_transport_mode, OpenClawWsTransportMode::Mock);
    assert!(c.api_keys.is_empty());
    assert_eq!(c.models, vec!["openclaw-default"]);
    assert_eq!(c.sqlite_path, "dev.sqlite3");
    assert_eq!(c.codex_session_bridge_mode, "mock");
    assert!(!c.fingerprint_api_key_configured());
    assert!(from_config(&c).is_none());
}

#[test]
fn settings_are_read_and_checked() {
    let mut s = settings();
    s.app_port = Some("+9000".to_string());
    s.api_keys = Some(" k1 , ,k2,".to_string());
    s.models = Some("a, b ,".to_string());
    s.openclaw_ws_transport_mode = Some("Real".to_string());
    s.third_party_provider_id = Some("tp".to_string());
    s.third_party_base_url = Some("http://tp".to_string());
    s.third_party_api_key = Some("key".to_string());
    s.third_party_model = Some("tm".to_string());
    let c = Config::from_settings(s).unwrap();
    assert_eq!(c.app_port, 9000);
    assert_eq!(c.api_keys, vec!["k1", "k2"]);
    assert_eq!(c.models, vec!["a", "b", ""]);
    assert_eq!(c.openclaw_ws_transport_mode, OpenClawWsTransportMode::Real);
    let tp = from_config(&c).unwrap();
    assert_eq!(tp.id, "tp");
    assert_eq!(tp.model, "tm");
    let mut bad = settings();
    bad.app_port = Some("70000".to_string());
    assert_eq!(Config::from_settings(bad).err(), Some("invalid APP_PORT".to_string()));
    let mut bad2 = settings();
    bad2.openclaw_api_timeout_ms = Some("-1".to_string());
    assert_eq!(Config::from_settings(bad2).err(), Some("invalid OPENCLAW_API_TIMEOUT_MS".to_string()));
}

#[test]
fn statuses_are_counted_most_frequent_first() {
    let statuses: Vec<String> = ["pending", "done", "pending", "blocked", "done", "pending", "a"]
        .iter()
        .map(|s| s.to_string())
        .collect();
    let counts = status_counts(&statuses);
    let pairs: Vec<(String, i64)> = counts.into_iter().map(|c| (c.status, c.count)).collect();
    assert_eq!(
        pairs,
        vec![
            ("pending".to_string(), 3),
            ("done".to_string(), 2),
            ("a".to_string(), 1),
            ("blocked".to_string(), 1),
        ]
    );
    assert!(status_counts(&[]).is_empty());
}
