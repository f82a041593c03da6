use openclaw_openai_gateway::admission::PoolMember;
use openclaw_openai_gateway::executor::{PoolMemberRepository, PoolRouter, SourceContextRepository};
use openclaw_openai_gateway::pool::{text_less, QuotaContextRow};

fn member(id: &str, child: &str, status: &str, level: &str, weight: i64) -> PoolMember {
    PoolMember {
        id: id.to_string(),
        child_account_id: child.to_string(),
        pool_status: status.to_string(),
        admission_level: level.to_string(),
        weight,
        current_load: 0,
        cooldown_until: None,
        last_success_at: None,
        last_failure_at: None,
    }
}

#[test]
fn text_order_is_by_code_point_with_prefixes_first() {
    assert!(text_less("a", "b"));
    assert!(text_less("ab", "abc"));
    assert!(!text_less("abc", "ab"));
    assert!(!text_less("x", "x"));
    assert!(text_less("Z", "a"));
    assert!(text_less("2024-01-01T00:00:00Z", "2024-01-02T00:00:00Z"));
    assert!(text_less("z", "é"));
}

#[test]
fn routing_picks_the_heaviest_active_member_then_by_account() {
    let router = PoolRouter::new("db".to_string());
    let rows = vec![
        member("1", "child:c", "active", "yellow", 30),
        member("2", "child:b", "active", "green", 100),
        member("3", "child:a", "cooling", "red", 0),
        member("4", "child:a2", "active", "green", 100),
        member("5", "child:z", "active", "green", 0),
    ];
    let picked = router.pick_best_active_member(&rows).unwrap();
    assert_eq!(picked.child_account_id, "child:a2");
    assert_eq!(picked.admission_level, "green");
    assert_eq!(picked.pool_status, "active");
    assert_eq!(picked.weight, 100);
}

#[test]
fn routing_finds_no_member_without_an_active_weighted_one() {
    let router = PoolRouter::new("db".to_string());
    let rows = vec![member("1", "child:a", "cooling", "red", 0), member("2", "child:b", "active", "red", 0)];
    assert!(router.pick_best_active_member(&rows).is_none());
    assert!(router.pick_best_active_member(&[]).is_none());
}

#[test]
fn a_read_after_an_upsert_gives_the_member_with_the_kept_id() {
    let repo = PoolMemberRepository::new("db".to_string());
    let mut rows = vec![member("pool-old", "child:a", "cooling", "red", 0), member("pool-b", "child:b", "active", "green", 100)];
    let update = member("pool-new", "child:a", "active", "yellow", 30);
    repo.upsert(&mut rows, &update);
    assert_eq!(rows.len(), 2);
    let got = repo.get_by_child_account_id(&rows, "child:a").unwrap();
    assert_eq!(got.id, "pool-old");
    assert_eq!(got.pool_status, "active");
    assert_eq!(got.admission_level, "yellow");
    assert_eq!(got.weight, 30);
    let other = repo.get_by_child_account_id(&rows, "child:b").unwrap();
    assert_eq!(other.id, "pool-b");
    assert_eq!(other.weight, 100);
    let fresh = member("pool-c", "child:c", "active", "green", 100);
    repo.upsert(&mut rows, &fresh);
    assert_eq!(rows.len(), 3);
    assert_eq!(repo.get_by_child_account_id(&rows, "child:c").unwrap().id, "pool-c");
    repo.upsert(&mut rows, &fresh);
    assert_eq!(rows.len(), 3);
    assert!(repo.get_by_child_account_id(&rows, "child:zz").is_none());
}

fn observation(child: &str, source: Option<&str>, page: Option<&str>, at: &str, ok: bool) -> QuotaContextRow {
    QuotaContextRow {
        child_account_id: child.to_string(),
        source_id: source.map(|s| s.to_string()),
        source_page: page.map(|s| s.to_string()),
        observed_at: at.to_string(),
        read_ok: ok,
    }
}

#[test]
fn the_latest_successful_observation_gives_the_context() {
    let repo = SourceContextRepository::new("db".to_string());
    let rows = vec![
        observation("child:a", Some("codex-app"), Some("/codex"), "2024-01-01T00:00:00Z", true),
        observation("child:a", Some("codex-web"), None, "2024-01-03T00:00:00Z", true),
        observation("child:a", Some("later-failed"), None, "2024-01-04T00:00:00Z", false),
        observation("child:b", Some("other"), None, "2024-01-05T00:00:00Z", true),
        observation("child:a", None, Some("/p"), "2024-01-02T00:00:00Z", true),
    ];
    let ctx = repo.latest_for_child(&rows, "child:a").unwrap();
    assert_eq!(ctx.child_account_id, "child:a");
    assert_eq!(ctx.source_id, "codex-web");
    assert_eq!(ctx.source_page, "/codex");
    assert_eq!(ctx.observed_at, "2024-01-03T00:00:00Z");
    let only_page = vec![observation("child:x", None, None, "t", true)];
    let c = repo.latest_for_child(&only_page, "child:x").unwrap();
    assert_eq!(c.source_id, "unknown");
    assert_eq!(c.source_page, "/codex");
}

#[test]
fn an_account_without_a_successful_observation_has_no_context() {
    let repo = SourceContextRepository::new("db".to_string());
    let rows = vec![observation("child:a", Some("s"), None, "t", false)];
    assert_eq!(repo.latest_for_child(&rows, "child:a").err().unwrap(), "missing_source_context_for_child:child:a");
    assert_eq!(repo.latest_for_child(&[], "child:q").err().unwrap(), "missing_source_context_for_child:child:q");
}
