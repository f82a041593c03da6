use openclaw_openai_gateway::json::to_json_text;
use openclaw_openai_gateway::registration::{
    plan_registration, sanitize_key_fragment, string_list_to_json, task_outcome, worker_budget,
    AutoRegisterCodexAccountRequest, TaskFacts, TaskOutcomeKind,
};
use openclaw_openai_gateway::governance::{change_plan, config_snapshot, release_record};
use openclaw_openai_gateway::routes::governance::{change_plan_json, config_snapshot_json, get_change_plan};

#[test]
fn key_fragments_keep_lowercase_ascii_alphanumerics() {
    assert_eq!(sanitize_key_fragment("Alice.Smith@Example.COM"), "alice-smith-example-com");
    assert_eq!(sanitize_key_fragment("--x--"), "x");
    assert_eq!(sanitize_key_fragment("é@é"), "");
    assert_eq!(sanitize_key_fragment(sanitize_key_fragment("A_b").as_str()), "a-b");
}

fn request(allowed: Option<Vec<String>>) -> AutoRegisterCodexAccountRequest {
    AutoRegisterCodexAccountRequest {
        parent_email: "Boss@Corp.io".to_string(),
        child_email: "Kid@Corp.io".to_string(),
        space_name: None,
        fingerprint_profile_id: Some("fp-1".to_string()),
        proxy_key_label: None,
        allowed_models: allowed,
    }
}

#[test]
fn a_registration_queues_six_tasks_under_derived_keys() {
    let plan = plan_registration(&request(None), &vec!["m1".to_string(), "m2".to_string()], "2024-01-01T00:00:00Z", 1700);
    let r = &plan.response;
    assert_eq!(r.parent_account_id, "parent:boss-corp-io");
    assert_eq!(r.child_account_id, "child:kid-corp-io");
    assert_eq!(r.invite_task_id, "invite:parent:boss-corp-io:child:kid-corp-io");
    assert_eq!(r.space_membership_id, "membership:parent:boss-corp-io:child:kid-corp-io");
    assert_eq!(r.proxy_key_id, "proxy-key:child:kid-corp-io");
    assert_eq!(r.proxy_key_plaintext, "opapi_kid-corp-io_1700");
    assert_eq!(r.status, "pending_invite");
    let types: Vec<&str> = r.registration_tasks.iter().map(|t| t.task_type.as_str()).collect();
    assert_eq!(types, vec!["register-account", "verify-email", "verify-invite", "accept-invite", "collect-quota", "warmup-pool"]);
    assert_eq!(r.registration_tasks[0].id, "registration-task:child:kid-corp-io:register-account");
    assert_eq!(r.registration_tasks[0].risk_score, 30);
    assert_eq!(r.registration_tasks[0].max_attempts, 2);
    assert_eq!(r.registration_tasks[1].risk_score, 10);
    assert_eq!(r.registration_tasks[1].max_attempts, 3);
    assert_eq!(r.registration_tasks[5].next_run_at.as_deref(), Some("2024-01-01T00:00:00Z"));
    assert_eq!(plan.space_name, "Codex Auto Space");
    assert_eq!(plan.proxy_key_label, "auto-register:child:kid-corp-io");
    assert_eq!(plan.allowed_models_json, "[\"m1\",\"m2\"]");
    assert_eq!(to_json_text(&plan.task_payloads[0]), "{\"child_email\":\"Kid@Corp.io\",\"fingerprint_profile_id\":\"fp-1\"}");
    assert_eq!(
        to_json_text(&plan.task_payloads[2]),
        "{\"code_hint\":\"invite-accept\",\"provider\":\"pending-invite-api\",\"verification_target\":\"invite:parent:boss-corp-io:child:kid-corp-io\"}"
    );
    assert_eq!(to_json_text(&plan.task_payloads[4]), "{\"source_id\":\"codex-app\",\"source_page\":\"/codex\"}");
}

#[test]
fn asked_models_replace_the_configured_ones() {
    let plan = plan_registration(&request(Some(vec!["only\"one".to_string()])), &vec!["m1".to_string()], "t", 1);
    assert_eq!(plan.allowed_models_json, "[\"only\\\"one\"]");
    assert_eq!(string_list_to_json(&vec![]), "[]");
}

#[test]
fn runner_outcomes_follow_the_facts() {
    let no_key = TaskFacts { api_key_configured: false, email_verified: 0, invite_verified: 0, admission_level: Some("red".to_string()) };
    let o = task_outcome("register-account", 30, &no_key);
    assert!(o.kind == TaskOutcomeKind::RetryWait);
    assert_eq!(o.error.as_deref(), Some("fingerprint_browser_api_missing"));
    assert_eq!(o.risk_score, Some(50));
    assert_eq!(o.retryable, Some(true));
    let w = task_outcome("warmup-pool", 10, &no_key);
    assert!(w.kind == TaskOutcomeKind::Blocked);
    assert_eq!(w.risk_score, Some(95));
    let done = task_outcome("verify-email", 10, &no_key);
    assert!(done.kind == TaskOutcomeKind::Completed);
    assert_eq!(done.error, None);
    assert_eq!(worker_budget(None), 8);
    assert_eq!(worker_budget(Some(3)), 3);
}

#[test]
fn governance_documents_are_stamped_and_drafted() {
    let s = config_snapshot::capture_at("sum", "runtime", 42);
    assert_eq!(to_json_text(&config_snapshot_json(&s)), "{\"id\":\"cfg-42\",\"source\":\"runtime\",\"summary\":\"sum\"}");
    let p = change_plan::draft_at("t", -5);
    assert_eq!(to_json_text(&change_plan_json(&p)), "{\"id\":\"chg--5\",\"status\":\"draft\",\"title\":\"t\"}");
    let r = release_record::draft_at("n", 7);
    assert_eq!(r.id, "rel-7");
    assert_eq!(r.version, "v0-draft");
    let now = to_json_text(&get_change_plan());
    assert!(now.starts_with("{\"id\":\"chg-"));
    assert!(now.ends_with("\"status\":\"draft\",\"title\":\"promote sqlite control-plane reads\"}"));
}
