use openclaw_openai_gateway::domain::{
    default_provider_pool, load_from_config, provider_class_from_name, provider_class_name, ProviderClass,
    ProviderDescriptor,
};
use openclaw_openai_gateway::governance::audit::AuditEvent;
use openclaw_openai_gateway::repos::{
    AuditRepository, InMemoryStore, ModelRepository, ProviderRepository, ProviderRow, SqliteAuditRepository, SqliteModelRepository,
    SqliteProviderRepository,
};

#[test]
fn a_model_listing_after_a_replacement_gives_the_new_models() {
    let mut store = InMemoryStore::new();
    let repo = ModelRepository::new();
    assert!(repo.list(&store).is_empty());
    repo.replace_all(&mut store, load_from_config(&["a".to_string(), "b".to_string()]));
    let listed = repo.list(&store);
    assert_eq!(listed.len(), 2);
    assert_eq!(listed[1].canonical_name, "b");
    let providers = ProviderRepository::new();
    providers.replace_all(&mut store, default_provider_pool());
    assert_eq!(providers.list(&store)[0].id, "gateway.openclaw");
    assert_eq!(store.models.len(), 2);
}

#[test]
fn repositories_over_one_store_see_each_others_writes() {
    let mut store = InMemoryStore::new();
    let writer = AuditRepository::new();
    let reader = AuditRepository::with_sqlite(SqliteAuditRepository::new("db".to_string()));
    let event = AuditEvent { at: 1700, action: "routing.decision".to_string(), detail: "model=m".to_string() };
    writer.append(&mut store, &event);
    assert_eq!(reader.list(&store), vec!["model=m".to_string()]);
    ModelRepository::new().replace_all(&mut store, load_from_config(&["x".to_string()]));
    assert_eq!(SqliteModelRepository::new("db".to_string()).list(&store, None)[0].canonical_name, "x");
    assert_eq!(writer.list(&store).len(), 1);
}

#[test]
fn class_names_read_back_as_their_class() {
    for c in [ProviderClass::Api, ProviderClass::Gateway, ProviderClass::Web, ProviderClass::Local] {
        assert_eq!(provider_class_from_name(provider_class_name(c)), c);
    }
    assert_eq!(provider_class_from_name("unknown"), ProviderClass::Gateway);
}

fn fallback() -> InMemoryStore {
    let mut store = InMemoryStore::new();
    store.models = load_from_config(&["fallback-model".to_string()]);
    store.providers = default_provider_pool();
    store
}

#[test]
fn stored_rows_are_read_or_the_fallback_is_used() {
    let store = fallback();
    let models = SqliteModelRepository::new("db".to_string());
    let read = models.list(&store, Some(vec!["m1".to_string()]));
    assert_eq!(read[0].canonical_name, "m1");
    assert_eq!(read[0].provider_hint.as_deref(), Some("gateway.openclaw"));
    assert_eq!(models.list(&store, None)[0].canonical_name, "fallback-model");
    let providers = SqliteProviderRepository::new("db".to_string());
    let rows = vec![ProviderRow {
        id: "local.1".to_string(),
        class: "Local".to_string(),
        enabled: 0,
        base_url: Some("http://l".to_string()),
        api_key_hint: None,
    }];
    let listed = providers.list(&store, Some(rows));
    assert_eq!(listed[0].class, ProviderClass::Local);
    assert!(!listed[0].enabled);
    assert_eq!(listed[0].base_url.as_deref(), Some("http://l"));
    assert_eq!(providers.list(&store, None)[0].id, "gateway.openclaw");
}

#[test]
fn seeding_names_the_protocol_and_the_served_model() {
    let repo = SqliteProviderRepository::new("db".to_string());
    let entries = vec![
        ProviderDescriptor { id: "api.openai-compatible-demo".to_string(), class: ProviderClass::Api, enabled: true, base_url: Some("https://x".to_string()), api_key_hint: None },
        ProviderDescriptor { id: "gateway.openclaw".to_string(), class: ProviderClass::Gateway, enabled: false, base_url: None, api_key_hint: None },
    ];
    let seeds = repo.seed_rows(&entries);
    assert_eq!(seeds[0].protocol, "https");
    assert_eq!(seeds[0].class, "Api");
    assert_eq!(seeds[0].enabled, 1);
    assert_eq!(seeds[0].model_name, "gpt-4o-mini");
    assert_eq!(seeds[0].capability_id, "api.openai-compatible-demo::gpt-4o-mini");
    assert_eq!(seeds[0].availability_id, "gpt-4o-mini::api.openai-compatible-demo");
    assert_eq!(seeds[1].protocol, "ws");
    assert_eq!(seeds[1].enabled, 0);
    assert_eq!(seeds[1].model_name, "openclaw-default");
    let event = AuditEvent { at: 1700, action: "routing.decision".to_string(), detail: "d".to_string() };
    assert_eq!(SqliteAuditRepository::row_id(&event), "audit-routing.decision-1700");
}

#[test]
fn listings_come_back_in_text_order() {
    let store = fallback();
    let models = SqliteModelRepository::new("db".to_string());
    let names: Vec<String> = models
        .list(&store, Some(vec!["b".to_string(), "a".to_string(), "b".to_string(), "B".to_string()]))
        .into_iter()
        .map(|e| e.canonical_name)
        .collect();
    assert_eq!(names, vec!["B", "a", "b"]);
    let row = |id: &str| ProviderRow {
        id: id.to_string(),
        class: "Api".to_string(),
        enabled: 1,
        base_url: None,
        api_key_hint: None,
    };
    let providers = SqliteProviderRepository::new("db".to_string());
    let ids: Vec<String> = providers
        .list(&store, Some(vec![row("web.z"), row("api.a"), row("local.m")]))
        .into_iter()
        .map(|p| p.id)
        .collect();
    assert_eq!(ids, vec!["api.a", "local.m", "web.z"]);
}
