use openclaw_openai_gateway::admission::admission_from_snapshot;
use openclaw_openai_gateway::quota::{
    extract_integer_after, extract_integer_after_any, extract_quota_fields, parse_quota_page,
    snapshot_from_parsed, try_parse_quota_page, CodexQuotaPageInput, QuotaSnapshot,
};
use openclaw_openai_gateway::session::{
    extract_session_input, extract_session_value, extract_value_after_anchor, merge_session_input,
    CodexAppSessionInput, CodexQuotaCollector,
};

fn page(text: &str, html: Option<&str>, source_id: &str) -> CodexQuotaPageInput {
    CodexQuotaPageInput {
        child_account_id: "child:a".to_string(),
        source_id: source_id.to_string(),
        source_page: "/codex".to_string(),
        page_text: text.to_string(),
        page_html: html.map(|h| h.to_string()),
        snapshot_ref: None,
    }
}

#[test]
fn reads_every_signal_of_a_full_page() {
    let p = extract_quota_fields("5h 82% 7d 94% requests 8 tokens 2048 messages 6");
    assert_eq!(p.quota_5h_percent.as_deref(), Some("82"));
    assert_eq!(p.quota_7d_percent.as_deref(), Some("94"));
    assert_eq!(p.request_count, Some(8));
    assert_eq!(p.token_count, Some(2048));
    assert_eq!(p.message_count, Some(6));
    assert_eq!(p.confidence_hundredths, 98);
    assert_eq!(p.parser_version, "codex-parser-v1");
    assert_eq!(
        p.matched_signals,
        vec!["quota_5h_percent", "quota_7d_percent", "request_count", "token_count", "message_count"]
    );
    assert!(p.warnings.is_empty());
}

#[test]
fn confidence_grows_thirteen_hundredths_per_signal() {
    let p = extract_quota_fields("5-hour 12.5% left");
    assert_eq!(p.quota_5h_percent.as_deref(), Some("12.5"));
    assert_eq!(p.matched_signals, vec!["quota_5h_percent"]);
    assert_eq!(p.confidence_hundredths, 48);
    let q = extract_quota_fields("request count: 3, token count 40");
    assert_eq!(q.request_count, Some(3));
    assert_eq!(q.token_count, Some(40));
    assert_eq!(q.confidence_hundredths, 61);
    let none = extract_quota_fields("nothing here");
    assert_eq!(none.confidence_hundredths, 0);
    assert!(none.matched_signals.is_empty());
}

#[test]
fn anchors_match_in_any_case() {
    assert_eq!(extract_integer_after("REQUESTS 12", "requests"), Some(12));
    assert_eq!(extract_integer_after("Tokens: 7", "TOKENS"), Some(7));
    assert_eq!(extract_integer_after("tokens none", "tokens"), None);
    assert_eq!(extract_integer_after("no anchor", "tokens"), None);
    assert_eq!(extract_integer_after_any("message count 5", &["messages", "message count"]), Some(5));
}

#[test]
fn a_percent_with_two_dots_is_not_read() {
    let p = extract_quota_fields("5h 1.2.3%");
    assert_eq!(p.quota_5h_percent, None);
}

#[test]
fn numbers_further_than_the_window_are_not_read() {
    let far = format!("requests{}9", " ".repeat(70));
    assert_eq!(extract_integer_after(&far, "requests"), None);
}

#[test]
fn snapshot_records_the_page_and_the_signals() {
    let input = page("5h 82% 7d 94% requests 8", None, "codex-app");
    let parsed = extract_quota_fields(&input.page_text);
    let s = snapshot_from_parsed(&input, &parsed, "abc", "2024-01-01T00:00:00+00:00");
    assert_eq!(s.id, "quota-abc");
    assert_eq!(s.child_account_id, "child:a");
    assert_eq!(s.observed_at, "2024-01-01T00:00:00+00:00");
    assert_eq!(s.source_id.as_deref(), Some("codex-app"));
    assert_eq!(s.source_page.as_deref(), Some("/codex"));
    assert_eq!(s.confidence_hundredths, Some(74));
    assert!(s.read_ok);
    assert_eq!(s.error_reason, None);
}

#[test]
fn a_page_without_signals_is_not_read() {
    let input = page("hello", None, "codex-app");
    let s = parse_quota_page(&input);
    assert!(!s.read_ok);
    assert_eq!(s.error_reason.as_deref(), Some("quota_signals_not_found"));
    assert!(s.id.starts_with("quota-"));
    assert!(s.id.len() > "quota-".len());
    assert!(s.observed_at.contains('T'));
}

#[test]
fn fresh_snapshots_get_distinct_ids() {
    let input = page("5h 50%", None, "codex-app");
    let a = try_parse_quota_page(&input).unwrap();
    let b = try_parse_quota_page(&input).unwrap();
    assert_ne!(a.id, b.id);
}

fn snapshot(p5: Option<&str>, p7: Option<&str>, requests: Option<i64>, read_ok: bool) -> QuotaSnapshot {
    QuotaSnapshot {
        id: "quota-1".to_string(),
        child_account_id: "child:a".to_string(),
        observed_at: "t0".to_string(),
        quota_5h_percent: p5.map(|s| s.to_string()),
        quota_7d_percent: p7.map(|s| s.to_string()),
        request_count: requests,
        token_count: None,
        message_count: None,
        source_id: Some("codex-app".to_string()),
        source_page: Some("/codex".to_string()),
        confidence_hundredths: Some(98),
        read_ok,
        error_reason: None,
    }
}

#[test]
fn healthy_quota_is_green_with_full_weight() {
    let d = admission_from_snapshot(&snapshot(Some("82"), Some("94"), Some(8), true), "m1", "now", "later");
    assert_eq!(d.pool_member.id, "pool-m1");
    assert_eq!(d.pool_member.pool_status, "active");
    assert_eq!(d.pool_member.admission_level, "green");
    assert_eq!(d.pool_member.weight, 100);
    assert_eq!(d.pool_member.current_load, 0);
    assert_eq!(d.pool_member.cooldown_until, None);
    assert_eq!(d.pool_member.last_success_at.as_deref(), Some("now"));
    assert_eq!(d.pool_member.last_failure_at, None);
    assert_eq!(d.reasons, vec!["quota_healthy"]);
}

#[test]
fn low_quota_or_busy_member_is_yellow() {
    let d = admission_from_snapshot(&snapshot(Some("15"), Some("94"), Some(250), true), "m", "now", "later");
    assert_eq!(d.pool_member.admission_level, "yellow");
    assert_eq!(d.pool_member.weight, 30);
    assert_eq!(d.reasons, vec!["quota_low", "request_rate_high"]);
    let busy = admission_from_snapshot(&snapshot(Some("80"), Some("80"), Some(201), true), "m", "now", "later");
    assert_eq!(busy.reasons, vec!["request_rate_high"]);
    let edge = admission_from_snapshot(&snapshot(Some("80"), Some("80"), Some(200), true), "m", "now", "later");
    assert_eq!(edge.pool_member.admission_level, "green");
}

#[test]
fn spent_or_unread_quota_cools_the_member_down() {
    let spent = admission_from_snapshot(&snapshot(Some("4.9"), Some("94"), None, true), "m", "now", "later");
    assert_eq!(spent.pool_member.pool_status, "cooling");
    assert_eq!(spent.pool_member.admission_level, "red");
    assert_eq!(spent.pool_member.weight, 0);
    assert_eq!(spent.pool_member.cooldown_until.as_deref(), Some("later"));
    assert_eq!(spent.pool_member.last_failure_at.as_deref(), Some("now"));
    assert_eq!(spent.reasons, vec!["quota_below_5_percent"]);
    let unread = admission_from_snapshot(&snapshot(Some("90"), Some("90"), None, false), "m", "now", "later");
    assert_eq!(unread.reasons, vec!["quota_read_failed"]);
    let missing = admission_from_snapshot(&snapshot(None, Some("90"), None, true), "m", "now", "later");
    assert_eq!(missing.pool_member.admission_level, "red");
    let five = admission_from_snapshot(&snapshot(Some("5.0"), Some("90"), None, true), "m", "now", "later");
    assert_eq!(five.pool_member.admission_level, "yellow");
}

#[test]
fn session_values_follow_their_anchor() {
    assert_eq!(
        extract_value_after_anchor("Session Namespace: \"ns-1\", more", "session namespace"),
        Some("ns-1".to_string())
    );
    assert_eq!(extract_value_after_anchor("session_key_hint=>k9<br>", "session_key_hint"), Some("k9".to_string()));
    assert_eq!(extract_value_after_anchor("session namespace:   ", "session namespace"), None);
    assert_eq!(
        extract_session_value("nothing", Some("<i>session-namespace='h-ns'</i>"), &["session namespace", "session-namespace"]),
        Some("h-ns".to_string())
    );
}

#[test]
fn given_session_hints_win_over_the_page() {
    let input = page("session namespace: page-ns session key hint: page-key", None, "codex-app");
    let extracted = extract_session_input(&input);
    assert_eq!(extracted.session_namespace.as_deref(), Some("page-ns"));
    assert_eq!(extracted.session_key_hint.as_deref(), Some("page-key"));
    let given = CodexAppSessionInput { session_namespace: Some("given-ns".to_string()), session_key_hint: None };
    let merged = merge_session_input(&input, &given);
    assert_eq!(merged.session_namespace.as_deref(), Some("given-ns"));
    assert_eq!(merged.session_key_hint.as_deref(), Some("page-key"));
}

#[test]
fn a_codex_app_observation_keeps_its_session() {
    let collector = CodexQuotaCollector::new("db".to_string());
    let input = page("5h 80% session namespace: ns", None, "codex-app");
    let none = CodexAppSessionInput { session_namespace: None, session_key_hint: None };
    let o = collector.observe(&input, &none).unwrap();
    assert_eq!(o.session_record_id.as_deref(), Some("codex-app-session:child:a:codex-app"));
    assert_eq!(o.session.session_namespace.as_deref(), Some("ns"));
    let web = page("5h 80% session namespace: ns", None, "codex-web");
    let o2 = collector.observe(&web, &none).unwrap();
    assert_eq!(o2.session_record_id, None);
    let bare = page("5h 80%", None, "codex-app");
    let o3 = collector.observe(&bare, &none).unwrap();
    assert_eq!(o3.session_record_id, None);
}

#[test]
fn an_ascii_page_always_reads() {
    let input = page("5h 82% 7d 94%", Some("<b>session namespace: ns-1</b>"), "codex-app");
    let s = try_parse_quota_page(&input).unwrap();
    assert_eq!(s.quota_5h_percent.as_deref(), Some("82"));
    assert_eq!(s.quota_7d_percent.as_deref(), Some("94"));
    let collector = CodexQuotaCollector::new("db".to_string());
    let none = CodexAppSessionInput { session_namespace: None, session_key_hint: None };
    let o = collector.observe(&input, &none).unwrap();
    assert_eq!(o.session.session_namespace.as_deref(), Some("ns-1"));
}

#[test]
fn percentages_are_graded_as_the_floats_they_read_as() {
    let level = |p: &str| admission_from_snapshot(&snapshot(Some(p), Some("94"), Some(8), true), "m", "now", "later")
        .pool_member
        .admission_level;
    assert_eq!(level("4.9999999999999995"), "red");
    assert_eq!(level("4.99999999999999955"), "red");
    assert_eq!(level("4.99999999999999956"), "yellow");
    assert_eq!(level("4.999999999999999555910790149937383830547332763671875"), "yellow");
    assert_eq!(level("5."), "yellow");
    assert_eq!(level("19.99999999999999822"), "yellow");
    assert_eq!(level("19.9999999999999999"), "green");
    assert_eq!(level("20"), "green");
}

#[test]
fn snapshot_ids_carry_a_version_4_uuid() {
    let s = try_parse_quota_page(&page("5h 50%", None, "codex-app")).unwrap();
    let uuid = s.id.strip_prefix("quota-").unwrap();
    assert_eq!(uuid.len(), 36);
    assert_eq!(&uuid[14..15], "4");
    assert!(["8", "9", "a", "b"].contains(&&uuid[19..20]));
    assert!(uuid.chars().all(|c| c == '-' || c.is_ascii_digit() || ('a'..='f').contains(&c)));
}
