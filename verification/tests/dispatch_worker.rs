use openclaw_openai_gateway::config::{Config, ConfigSettings};
use openclaw_openai_gateway::dispatch::{
    dispatch_response, idle_dispatch, next_due_task, run_task, runs, warmup_collection, warmup_page,
    DispatchAction, DispatchRegistrationTaskResponse, RegistrationTaskRow, RegistrationWorker,
};
use openclaw_openai_gateway::json::{to_json_text, JsonValue};
use openclaw_openai_gateway::registration::{settle_task, TaskFacts, TaskOutcomeKind};
use openclaw_openai_gateway::routes::codex::RegistrationWorkerRunRequest;
use openclaw_openai_gateway::session::CodexQuotaCollector;

fn settings() -> ConfigSettings {
    ConfigSettings {
        app_host: None,
        app_port: None,
        openclaw_ws_url: None,
        openclaw_api_timeout_ms: None,
        api_keys: None,
        models: None,
        sqlite_path: None,
        openclaw_ws_transport_mode: None,
        codex_session_bridge_mode: None,
        third_party_provider_id: None,
        third_party_base_url: None,
        third_party_api_key: None,
        third_party_model: None,
        fingerprint_browser_provider: None,
        fingerprint_browser_base_url: None,
        fingerprint_browser_api_key: None,
    }
}

fn task(id: &str, task_type: &str, status: &str, next: Option<&str>, queued: Option<&str>) -> RegistrationTaskRow {
    RegistrationTaskRow {
        id: id.to_string(),
        parent_account_id: "parent:p".to_string(),
        child_account_id: "child:c".to_string(),
        task_type: task_type.to_string(),
        payload_json: "{}".to_string(),
        status: status.to_string(),
        attempt_count: 0,
        max_attempts: 3,
        risk_score: 10,
        dead_lettered: false,
        next_run_at: next.map(|s| s.to_string()),
        lease_until: None,
        queued_at: queued.map(|s| s.to_string()),
    }
}

fn facts(key: bool, email: i64, invite: i64, level: &str) -> TaskFacts {
    TaskFacts { api_key_configured: key, email_verified: email, invite_verified: invite, admission_level: if level.is_empty() { None } else { Some(level.to_string()) } }
}

fn obj(entries: Vec<(&str, JsonValue)>) -> JsonValue {
    JsonValue::Object(entries.into_iter().map(|(k, v)| (k.to_string(), v)).collect())
}

#[test]
fn the_earliest_due_task_runs_next() {
    let now = "2024-01-02T00:00:00Z";
    let mut rows = vec![
        task("t-late", "verify-email", "pending", Some("2024-01-01T12:00:00Z"), Some("q1")),
        task("t-early", "verify-email", "retry_wait", Some("2024-01-01T00:00:00Z"), Some("q2")),
        task("t-future", "verify-email", "pending", Some("2024-01-03T00:00:00Z"), Some("q0")),
        task("t-done", "verify-email", "completed", None, Some("q0")),
    ];
    assert_eq!(next_due_task(&rows, now), Some(1));
    rows.push(task("t-null", "verify-email", "pending", None, Some("q9")));
    assert_eq!(next_due_task(&rows, now), Some(4));
    let mut risky = task("t-risky", "verify-email", "pending", None, None);
    risky.risk_score = 71;
    let mut dead = task("t-dead", "verify-email", "pending", None, None);
    dead.dead_lettered = true;
    let mut leased = task("t-leased", "verify-email", "pending", None, None);
    leased.lease_until = Some("2024-01-05T00:00:00Z".to_string());
    assert_eq!(next_due_task(&[risky, dead, leased], now), None);
}

#[test]
fn ties_are_broken_by_queueing_time_then_id() {
    let now = "2024-01-02T00:00:00Z";
    let rows = vec![
        task("t-b", "verify-email", "pending", Some("2024-01-01T00:00:00Z"), Some("q1")),
        task("t-a", "verify-email", "pending", Some("2024-01-01T00:00:00Z"), Some("q1")),
        task("t-c", "verify-email", "pending", Some("2024-01-01T00:00:00Z"), Some("q2")),
    ];
    assert_eq!(next_due_task(&rows, now), Some(1));
}

#[test]
fn registration_waits_without_the_browser_key() {
    let config = Config::from_settings(settings()).unwrap();
    let t = task("t", "register-account", "pending", None, None);
    let run = run_task(&t, &JsonValue::Null, &config, &facts(false, 0, 0, "red"), None);
    assert_eq!(
        to_json_text(&run.result),
        "{\"error\":\"fingerprint_browser_api_missing\",\"retryable\":true,\"risk_score\":30,\"runner\":\"fingerprint-browser\",\"status\":\"retry_wait\"}"
    );
    assert!(run.outcome.kind == TaskOutcomeKind::RetryWait);
    assert_eq!(run.outcome.risk_score, Some(30));
    assert!(matches!(run.action, DispatchAction::Nothing));
}

#[test]
fn registration_hands_the_payload_to_the_browser() {
    let mut s = settings();
    s.fingerprint_browser_api_key = Some("k".to_string());
    s.fingerprint_browser_base_url = Some("http://fp".to_string());
    let config = Config::from_settings(s).unwrap();
    assert!(config.fingerprint_api_key_configured());
    let t = task("t", "register-account", "pending", None, None);
    let payload = obj(vec![("child_email", JsonValue::Str("c@x".to_string()))]);
    let run = run_task(&t, &payload, &config, &facts(true, 0, 0, "red"), None);
    assert_eq!(
        to_json_text(&run.result),
        "{\"action\":\"register-account\",\"api_key_configured\":true,\"base_url\":\"http://fp\",\"payload\":{\"child_email\":\"c@x\"},\"provider\":\"pending-api\",\"runner\":\"fingerprint-browser\",\"safety_mode\":\"success-first\"}"
    );
    assert!(run.outcome.kind == TaskOutcomeKind::Completed);
    assert!(matches!(run.action, DispatchAction::MarkRegistered));
}

#[test]
fn verifications_record_what_the_payload_names() {
    let config = Config::from_settings(settings()).unwrap();
    let t = task("t", "verify-email", "pending", None, None);
    let payload = obj(vec![
        ("provider", JsonValue::Str("mailer".to_string())),
        ("verification_target", JsonValue::Str("c@x".to_string())),
    ]);
    let run = run_task(&t, &payload, &config, &facts(false, 0, 0, "red"), None);
    assert_eq!(
        to_json_text(&run.result),
        "{\"kind\":\"email\",\"provider\":\"mailer\",\"runner\":\"verification-engine\",\"status\":\"completed\"}"
    );
    match run.action {
        DispatchAction::RecordVerification { id, kind, provider, verification_target, code_hint } => {
            assert_eq!(id, "verification:child:c:email");
            assert_eq!(kind, "email");
            assert_eq!(provider, "mailer");
            assert_eq!(verification_target, "c@x");
            assert_eq!(code_hint, "mailbox-code");
        }
        _ => panic!("a verification is recorded"),
    }
    let invite = task("t", "verify-invite", "pending", None, None);
    let run2 = run_task(&invite, &JsonValue::Null, &config, &facts(false, 0, 0, "red"), None);
    assert_eq!(
        to_json_text(&run2.result),
        "{\"kind\":\"invite\",\"provider\":\"pending-invite-api\",\"runner\":\"verification-engine\",\"status\":\"completed\"}"
    );
}

#[test]
fn accepting_the_invite_waits_for_both_verifications() {
    let config = Config::from_settings(settings()).unwrap();
    let t = task("t", "accept-invite", "pending", None, None);
    let waiting = run_task(&t, &JsonValue::Null, &config, &facts(true, 1, 0, "red"), None);
    assert_eq!(
        to_json_text(&waiting.result),
        "{\"error\":\"verification_pending\",\"retryable\":true,\"risk_score\":15,\"runner\":\"fingerprint-browser\",\"status\":\"retry_wait\"}"
    );
    let accepted = run_task(&t, &JsonValue::Null, &config, &facts(false, 1, 2, "red"), None);
    assert_eq!(
        to_json_text(&accepted.result),
        "{\"action\":\"accept-invite\",\"api_key_configured\":false,\"base_url\":null,\"parent_account_id\":\"parent:p\",\"provider\":\"pending-api\",\"requires\":[\"email-check\",\"invite-confirmation\"],\"runner\":\"fingerprint-browser\"}"
    );
    assert!(matches!(accepted.action, DispatchAction::AcceptInvite));
}

#[test]
fn warming_a_red_member_is_blocked() {
    let config = Config::from_settings(settings()).unwrap();
    let t = task("t", "warmup-pool", "pending", None, None);
    let blocked = run_task(&t, &JsonValue::Null, &config, &facts(true, 0, 0, "red"), None);
    assert_eq!(
        to_json_text(&blocked.result),
        "{\"error\":\"unsafe_to_warmup_red_pool_member\",\"retryable\":false,\"risk_score\":95,\"runner\":\"pool-warmer\",\"status\":\"blocked\"}"
    );
    assert!(blocked.outcome.kind == TaskOutcomeKind::Blocked);
    let missing = run_task(&t, &JsonValue::Null, &config, &facts(true, 0, 0, ""), None);
    assert!(missing.outcome.kind == TaskOutcomeKind::Blocked);
    let warm = run_task(&t, &JsonValue::Null, &config, &facts(true, 0, 0, "green"), None);
    assert_eq!(
        to_json_text(&warm.result),
        "{\"runner\":\"pool-warmer\",\"safety_mode\":\"success-first\",\"target_pool_status\":\"active\"}"
    );
    assert!(matches!(warm.action, DispatchAction::WarmPool));
    let other = run_task(&task("t", "unknown", "pending", None, None), &JsonValue::Null, &config, &facts(true, 0, 0, "red"), None);
    assert_eq!(to_json_text(&other.result), "{\"runner\":\"noop\",\"status\":\"idle\"}");
}

#[test]
fn collecting_quota_reports_the_warmup_admission() {
    let config = Config::from_settings(settings()).unwrap();
    let (input, session) = warmup_page("child:c");
    assert_eq!(input.page_text, "5h 82% 7d 94% requests 8 tokens 2048 messages 6");
    assert_eq!(session.session_namespace.as_deref(), Some("auto-register:child:c"));
    assert_eq!(session.session_key_hint.as_deref(), Some("bootstrap:child:c"));
    let collector = CodexQuotaCollector::new("db".to_string());
    let w = warmup_collection(&collector, "child:c").unwrap();
    assert_eq!(w.decision.pool_member.admission_level, "green");
    let t = task("t", "collect-quota", "pending", None, None);
    let run = run_task(&t, &JsonValue::Null, &config, &facts(true, 0, 0, "red"), Some(&w));
    let expected = format!(
        "{{\"admission_level\":\"green\",\"pool_status\":\"active\",\"runner\":\"quota-collector\",\"snapshot_id\":\"{}\"}}",
        w.observation.snapshot.id
    );
    assert_eq!(to_json_text(&run.result), expected);
}

#[test]
fn a_retried_task_is_dead_lettered_when_its_attempts_run_out() {
    let first = settle_task(TaskOutcomeKind::RetryWait, 0, 3);
    assert_eq!(first.status, "retry_wait");
    assert!(!first.dead_lettered);
    assert_eq!(first.retry_after_secs, Some(30));
    let last = settle_task(TaskOutcomeKind::RetryWait, 2, 3);
    assert_eq!(last.status, "dead_letter");
    assert!(last.dead_lettered);
    assert_eq!(last.retry_after_secs, Some(90));
    assert_eq!(settle_task(TaskOutcomeKind::Blocked, 5, 3).status, "blocked");
    assert_eq!(settle_task(TaskOutcomeKind::Completed, 0, 3).status, "completed");
}

#[test]
fn dispatch_answers_name_the_task_and_its_stored_status() {
    let idle = idle_dispatch();
    assert_eq!(idle.id, "registration-task:none");
    assert_eq!(idle.task_type, "idle");
    assert_eq!(idle.status, "idle");
    assert_eq!(to_json_text(&idle.result), "{\"runner\":\"noop\",\"status\":\"idle\"}");
    let t = task("t-1", "verify-email", "pending", None, None);
    assert!(runs(&t));
    let r = dispatch_response(&t, JsonValue::Null, Some("retry_wait".to_string()));
    assert_eq!(r.status, "retry_wait");
    let r2 = dispatch_response(&t, JsonValue::Null, None);
    assert_eq!(r2.status, "completed");
    let odd = task("t-2", "idle", "pending", None, None);
    assert!(!runs(&odd));
    assert_eq!(dispatch_response(&odd, JsonValue::Null, Some("pending".to_string())).status, "idle");
}

fn answer(status: &str) -> DispatchRegistrationTaskResponse {
    DispatchRegistrationTaskResponse {
        id: "x".to_string(),
        task_type: "verify-email".to_string(),
        status: status.to_string(),
        result: JsonValue::Null,
    }
}

#[test]
fn the_worker_stops_at_its_budget_or_at_an_idle_dispatch() {
    let mut w = RegistrationWorker::start(&RegistrationWorkerRunRequest { max_tasks: Some(2) });
    assert!(w.wants_more());
    assert!(w.record(answer("completed")));
    assert!(!w.record(answer("retry_wait")));
    assert!(!w.wants_more());
    let done = w.finish();
    assert_eq!(done.dispatched, 2);
    let mut w2 = RegistrationWorker::start(&RegistrationWorkerRunRequest { max_tasks: None });
    assert_eq!(w2.remaining, 8);
    assert!(w2.record(answer("completed")));
    assert!(!w2.record(answer("idle")));
    let done2 = w2.finish();
    assert_eq!(done2.dispatched, 1);
    assert_eq!(done2.results[0].status, "completed");
}

#[test]
fn dead_letters_are_put_back_oldest_first() {
    let mut a = task("t-a", "verify-email", "dead_letter", None, Some("q2"));
    a.dead_lettered = false;
    let mut b = task("t-b", "verify-email", "retry_wait", None, None);
    b.dead_lettered = true;
    let c = task("t-c", "verify-email", "pending", None, Some("q0"));
    let d = task("t-d", "verify-email", "dead_letter", None, Some("q1"));
    let e = task("t-0", "verify-email", "dead_letter", None, Some("q1"));
    let ids = openclaw_openai_gateway::dispatch::dead_letter_ids(&[a, b, c, d, e]);
    assert_eq!(ids, vec!["t-b", "t-0", "t-d", "t-a"]);
}
