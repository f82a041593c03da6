//! The records that the gateway keeps: accounts, pool members, providers, models and the
//! Codex quota sources it observes.
use vstd::prelude::*;
use crate::quota::opt_view;

verus! {

/// A value that can be copied with its view kept.
pub trait DeepCopy: Sized + View {
    fn deep_copy(&self) -> (r: Self)
        ensures
            r@ == self@;
}

impl DeepCopy for String {
    fn deep_copy(&self) -> (r: Self) {
        self.clone()
    }
}

pub open spec fn views<T: View>(v: Seq<T>) -> Seq<T::V> {
    v.map_values(|x: T| x@)
}

/// A copy of every item, in order.
pub fn copy_all<T: DeepCopy>(v: &Vec<T>) -> (r: Vec<T>)
    ensures
        views(r@) == views(v@),
{
    let mut r: Vec<T> = Vec::new();
    let mut i: usize = 0;
    while i < v.len()
        invariant
            i <= v@.len(),
            r@.len() == i,
            forall|j: int| 0 <= j < i ==> #[trigger] r@[j]@ == v@[j]@,
        decreases v@.len() - i,
    {
        r.push(v[i].deep_copy());
        i = i + 1;
    }
    assert(views(r@) =~= views(v@));
    r
}

pub fn copy_opt(o: &Option<String>) -> (r: Option<String>)
    ensures
        opt_view(r) == opt_view(*o),
{
    match o {
        Some(s) => Some(s.clone()),
        None => None,
    }
}

#[derive(Debug, Clone)]
pub struct ParentAccount {
    pub id: String,
    pub email: String,
    pub space_name: String,
    pub status: String,
    pub fingerprint_profile_id: Option<String>,
    pub invite_enabled: bool,
    pub risk_level: String,
    pub last_login_at: Option<String>,
}

#[derive(Debug, Clone)]
pub struct ChildAccount {
    pub id: String,
    pub email: String,
    pub parent_account_id: Option<String>,
    pub status: String,
    pub space_verified: bool,
    pub pool_status: String,
    pub risk_level: String,
    pub fingerprint_profile_id: Option<String>,
    pub last_login_at: Option<String>,
}

#[derive(Debug, Clone)]
pub struct ChangePlan {
    pub id: String,
    pub title: String,
    pub status: String,
}

#[derive(Debug, Clone)]
pub struct ConfigSnapshot {
    pub id: String,
    pub summary: String,
    pub source: String,
}

#[derive(Debug, Clone)]
pub struct ReleaseRecord {
    pub id: String,
    pub version: String,
    pub note: String,
}

#[derive(Debug, Clone)]
pub struct InviteTask {
    pub id: String,
    pub parent_account_id: String,
    pub child_account_id: String,
    pub status: String,
    pub sent_at: Option<String>,
    pub accepted_at: Option<String>,
    pub error_reason: Option<String>,
}

#[derive(Debug, Clone)]
pub struct ModelAvailability {
    pub model_name: String,
    pub provider_id: String,
    pub status: String,
}

#[derive(Debug, Clone)]
pub struct ProviderCapability {
    pub provider_id: String,
    pub model_name: String,
    pub supports_stream: bool,
    pub supports_responses_api: bool,
}

#[derive(Debug, Clone)]
pub struct ProxyApiKey {
    pub id: String,
    pub label: String,
    pub hashed_key: String,
    pub owner: String,
    pub status: String,
    pub rate_limit: Option<i64>,
    pub quota_limit: Option<i64>,
    pub allowed_models: Vec<String>,
}

#[derive(Debug, Clone)]
pub struct SpaceMembership {
    pub id: String,
    pub parent_account_id: String,
    pub child_account_id: String,
    pub joined: bool,
    pub verified: bool,
    pub verified_at: Option<String>,
}

#[derive(Debug, Clone)]
pub struct ThirdPartyProviderImport {
    pub id: String,
    pub base_url: String,
    pub api_key: String,
    pub model: String,
}

#[derive(Debug, Clone)]
pub struct VerificationTask {
    pub id: String,
    pub child_account_id: String,
    pub kind: String,
    pub status: String,
    pub provider: Option<String>,
    pub verification_target: Option<String>,
    pub code_hint: Option<String>,
    pub last_checked_at: Option<String>,
    pub verified_at: Option<String>,
    pub error_reason: Option<String>,
}

/// A model the gateway serves, under its canonical name and an optional alias.
#[derive(Debug, Clone)]
pub struct ModelCatalogEntry {
    pub canonical_name: String,
    pub alias: Option<String>,
    pub provider_hint: Option<String>,
}

impl View for ModelCatalogEntry {
    type V = (Seq<char>, Option<Seq<char>>, Option<Seq<char>>);

    open spec fn view(&self) -> Self::V {
        (self.canonical_name@, opt_view(self.alias), opt_view(self.provider_hint))
    }
}

impl DeepCopy for ModelCatalogEntry {
    fn deep_copy(&self) -> (r: Self) {
        ModelCatalogEntry {
            canonical_name: self.canonical_name.clone(),
            alias: copy_opt(&self.alias),
            provider_hint: copy_opt(&self.provider_hint),
        }
    }
}

/// The kind of a provider.
#[derive(Debug, Clone, Copy, PartialEq, Eq, Structural)]
pub enum ProviderClass {
    Api,
    Gateway,
    Web,
    Local,
}

/// A provider that requests can be routed to.
#[derive(Debug, Clone)]
pub struct ProviderDescriptor {
    pub id: String,
    pub class: ProviderClass,
    pub enabled: bool,
    pub base_url: Option<String>,
    pub api_key_hint: Option<String>,
}

impl View for ProviderDescriptor {
    type V = (Seq<char>, ProviderClass, bool, Option<Seq<char>>, Option<Seq<char>>);

    open spec fn view(&self) -> Self::V {
        (self.id@, self.class, self.enabled, opt_view(self.base_url), opt_view(self.api_key_hint))
    }
}

impl DeepCopy for ProviderDescriptor {
    fn deep_copy(&self) -> (r: Self) {
        ProviderDescriptor {
            id: self.id.clone(),
            class: self.class,
            enabled: self.enabled,
            base_url: copy_opt(&self.base_url),
            api_key_hint: copy_opt(&self.api_key_hint),
        }
    }
}

/// The name a provider class is written under (its `Debug` text).
pub open spec fn class_name(c: ProviderClass) -> Seq<char> {
    match c {
        ProviderClass::Api => "Api"@,
        ProviderClass::Gateway => "Gateway"@,
        ProviderClass::Web => "Web"@,
        ProviderClass::Local => "Local"@,
    }
}

/// The class a stored name reads as: `Api`, `Web` and `Local` by name, anything else a
/// gateway.
pub open spec fn class_from_name(s: Seq<char>) -> ProviderClass {
    if s == "Api"@ {
        ProviderClass::Api
    } else if s == "Web"@ {
        ProviderClass::Web
    } else if s == "Local"@ {
        ProviderClass::Local
    } else {
        ProviderClass::Gateway
    }
}

pub fn provider_class_name(c: ProviderClass) -> (r: &'static str)
    ensures
        r@ == class_name(c),
{
    match c {
        ProviderClass::Api => "Api",
        ProviderClass::Gateway => "Gateway",
        ProviderClass::Web => "Web",
        ProviderClass::Local => "Local",
    }
}

pub fn provider_class_from_name(s: &str) -> (r: ProviderClass)
    ensures
        r == class_from_name(s@),
{
    let t = String::from_str(s);
    if t == String::from_str("Api") {
        ProviderClass::Api
    } else if t == String::from_str("Web") {
        ProviderClass::Web
    } else if t == String::from_str("Local") {
        ProviderClass::Local
    } else {
        ProviderClass::Gateway
    }
}

/// Writing a class's name and reading it back gives the class.
pub proof fn lemma_class_name_round_trip(c: ProviderClass)
    ensures
        class_from_name(class_name(c)) == c,
{
    reveal_strlit("Api");
    reveal_strlit("Gateway");
    reveal_strlit("Web");
    reveal_strlit("Local");
    assert("Gateway"@.len() == 7 && "Api"@.len() == 3 && "Web"@.len() == 3 && "Local"@.len() == 5);
    assert("Api"@[0] != "Web"@[0]);
}

/// Where Codex quota is observed.
#[derive(Debug, Clone, Copy, PartialEq, Eq, Structural)]
pub enum CodexQuotaSourceKind {
    CodexApp,
    CodexWeb,
}

#[derive(Debug, Clone)]
pub struct CodexQuotaSource {
    pub id: String,
    pub kind: CodexQuotaSourceKind,
    pub enabled: bool,
    pub display_name: String,
    pub provider_id: String,
    pub base_url: Option<String>,
    pub observation_path: String,
    pub notes: Option<String>,
}

/// The two Codex quota sources, the App and the Web, both enabled.
pub fn default_codex_quota_sources() -> (r: Vec<CodexQuotaSource>)
    ensures
        r@.len() == 2,
        r@[0].id@ == "codex-app"@ && r@[0].kind == CodexQuotaSourceKind::CodexApp && r@[0].enabled
            && r@[0].display_name@ == "Codex App"@ && r@[0].provider_id@ == "codex.app"@
            && opt_view(r@[0].base_url) == Some("https://chatgpt.com"@)
            && r@[0].observation_path@ == "/codex"@
            && opt_view(r@[0].notes) == Some("桌面 App / 内嵌 WebView 会话额度观测入口"@),
        r@[1].id@ == "codex-web"@ && r@[1].kind == CodexQuotaSourceKind::CodexWeb && r@[1].enabled
            && r@[1].display_name@ == "Codex Web"@ && r@[1].provider_id@ == "codex.web"@
            && opt_view(r@[1].base_url) == Some("https://chatgpt.com"@)
            && r@[1].observation_path@ == "/codex"@
            && opt_view(r@[1].notes) == Some("浏览器网页会话额度观测入口"@),
{
    let mut r: Vec<CodexQuotaSource> = Vec::new();
    r.push(
        CodexQuotaSource {
            id: String::from_str("codex-app"),
            kind: CodexQuotaSourceKind::CodexApp,
            enabled: true,
            display_name: String::from_str("Codex App"),
            provider_id: String::from_str("codex.app"),
            base_url: Some(String::from_str("https://chatgpt.com")),
            observation_path: String::from_str("/codex"),
            notes: Some(String::from_str("桌面 App / 内嵌 WebView 会话额度观测入口")),
        },
    );
    r.push(
        CodexQuotaSource {
            id: String::from_str("codex-web"),
            kind: CodexQuotaSourceKind::CodexWeb,
            enabled: true,
            display_name: String::from_str("Codex Web"),
            provider_id: String::from_str("codex.web"),
            base_url: Some(String::from_str("https://chatgpt.com")),
            observation_path: String::from_str("/codex"),
            notes: Some(String::from_str("浏览器网页会话额度观测入口")),
        },
    );
    r
}

/// The catalog entry of a configured model: its name, no alias, served by the OpenClaw
/// gateway.
pub open spec fn configured_entry(name: Seq<char>) -> (Seq<char>, Option<Seq<char>>, Option<Seq<char>>) {
    (name, None, Some("gateway.openclaw"@))
}

/// The catalog of the configured models, in order.
pub fn load_from_config(models: &[String]) -> (r: Vec<ModelCatalogEntry>)
    ensures
        r@.len() == models@.len(),
        forall|i: int| 0 <= i < models@.len() ==> #[trigger] r@[i]@ == configured_entry(models@[i]@),
{
    let mut r: Vec<ModelCatalogEntry> = Vec::new();
    let mut i: usize = 0;
    while i < models.len()
        invariant
            i <= models@.len(),
            r@.len() == i,
            forall|j: int| 0 <= j < i ==> #[trigger] r@[j]@ == configured_entry(models@[j]@),
        decreases models@.len() - i,
    {
        r.push(
            ModelCatalogEntry {
                canonical_name: models[i].clone(),
                alias: None,
                provider_hint: Some(String::from_str("gateway.openclaw")),
            },
        );
        i = i + 1;
    }
    r
}

/// The provider pool: the OpenClaw gateway alone, enabled.
pub fn default_provider_pool() -> (r: Vec<ProviderDescriptor>)
    ensures
        r@.len() == 1,
        r@[0]@ == ("gateway.openclaw"@, ProviderClass::Gateway, true, None::<Seq<char>>, None::<Seq<char>>),
{
    let mut r: Vec<ProviderDescriptor> = Vec::new();
    r.push(
        ProviderDescriptor {
            id: String::from_str("gateway.openclaw"),
            class: ProviderClass::Gateway,
            enabled: true,
            base_url: None,
            api_key_hint: None,
        },
    );
    r
}

} // verus!
