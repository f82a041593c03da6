//! The providers a request can be served by, and the third-party provider the settings name.
use vstd::prelude::*;
use std::sync::Arc;
use crate::json::{JsonValue, JsonView};
use crate::bridge;
use crate::text;
use crate::transport::OpenClawWsClient;
use crate::config::Config;
use crate::domain::ThirdPartyProviderImport;
use crate::quota::opt_view;

verus! {

/// The reply of a provider that echoes: `{"echo", "model", "provider"}`.
pub open spec fn echo_view(provider: Seq<char>, model: Seq<char>, text: Seq<char>) -> JsonView {
    JsonView::Object(
        seq![
            ("echo"@, JsonView::Str(text)),
            ("model"@, JsonView::Str(model)),
            ("provider"@, JsonView::Str(provider)),
        ],
    )
}

fn echo(provider: &str, model: &str, text: &str) -> (r: JsonValue)
    ensures
        r@ == echo_view(provider@, model@, text@),
{
    bridge::object3(
        "echo",
        bridge::jstr(text),
        "model",
        bridge::jstr(model),
        "provider",
        bridge::jstr(provider),
    )
}

/// A provider reached over its own API; it never reports ready and echoes what it is sent.
pub struct ApiProvider;

impl ApiProvider {
    pub fn check_ready(&self) -> (r: bool)
        ensures
            !r,
    {
        false
    }

    pub fn chat(&self, model: &str, user_text: &str) -> (r: Result<JsonValue, String>)
        ensures
            r matches Ok(v) && v@ == echo_view("api"@, model@, user_text@),
    {
        Ok(echo("api", model, user_text))
    }

    pub fn response(&self, model: &str, input: &str) -> (r: Result<JsonValue, String>)
        ensures
            r matches Ok(v) && v@ == echo_view("api"@, model@, input@),
    {
        Ok(echo("api", model, input))
    }
}

/// A local provider; it is always ready and echoes what it is sent.
pub struct LocalProvider;

impl LocalProvider {
    pub fn check_ready(&self) -> (r: bool)
        ensures
            r,
    {
        true
    }

    pub fn chat(&self, model: &str, user_text: &str) -> (r: Result<JsonValue, String>)
        ensures
            r matches Ok(v) && v@ == echo_view("local"@, model@, user_text@),
    {
        Ok(echo("local", model, user_text))
    }

    pub fn response(&self, model: &str, input: &str) -> (r: Result<JsonValue, String>)
        ensures
            r matches Ok(v) && v@ == echo_view("local"@, model@, input@),
    {
        Ok(echo("local", model, input))
    }
}

/// The OpenClaw gateway, reached through its WebSocket client.
pub struct GatewayProvider {
    pub client: Arc<OpenClawWsClient>,
}

impl GatewayProvider {
    pub fn new(client: Arc<OpenClawWsClient>) -> (r: Self)
        ensures
            r.client == client,
    {
        GatewayProvider { client }
    }

    /// The client's proxied chat completion; `upstream_ready` is what the client's readiness
    /// check answered.
    pub fn chat(&self, model: &str, user_text: &str, upstream_ready: bool) -> (r: Result<JsonValue, String>)
        ensures
            !upstream_ready ==> (r matches Err(m) && m@ == "upstream unavailable"@),
            upstream_ready ==> (r matches Ok(v) && exists|millis: i64, secs: i64|
                v@ == #[trigger] bridge::chat_completion_view(
                    "chatcmpl-proxy-"@ + text::int_text(millis as int),
                    secs,
                    model@,
                    "proxy mapped: "@ + user_text@,
                )),
    {
        self.client.proxy_chat(model, user_text, upstream_ready)
    }

    /// The client's proxied response; `upstream_ready` is what the client's readiness check
    /// answered.
    pub fn response(&self, model: &str, input: &str, upstream_ready: bool) -> (r: Result<JsonValue, String>)
        ensures
            !upstream_ready ==> (r matches Err(m) && m@ == "upstream unavailable"@),
            upstream_ready ==> (r matches Ok(v) && exists|millis: i64, secs: i64|
                v@ == #[trigger] bridge::response_view(
                    "resp-proxy-"@ + text::int_text(millis as int),
                    secs,
                    model@,
                    "proxy mapped: "@ + input@,
                )),
    {
        self.client.proxy_response(model, input, upstream_ready)
    }
}

/// The third-party provider the settings name: there is one only where its id, base URL, API
/// key and model are all set.
pub fn from_config(config: &Config) -> (r: Option<ThirdPartyProviderImport>)
    ensures
        match (
            opt_view(config.third_party_provider_id),
            opt_view(config.third_party_base_url),
            opt_view(config.third_party_api_key),
            opt_view(config.third_party_model),
        ) {
            (Some(id), Some(base_url), Some(api_key), Some(model)) => r matches Some(p) && p.id@ == id
                && p.base_url@ == base_url && p.api_key@ == api_key && p.model@ == model,
            _ => r is None,
        },
{
    match (
        &config.third_party_provider_id,
        &config.third_party_base_url,
        &config.third_party_api_key,
        &config.third_party_model,
    ) {
        (Some(id), Some(base_url), Some(api_key), Some(model)) => Some(
            ThirdPartyProviderImport {
                id: id.clone(),
                base_url: base_url.clone(),
                api_key: api_key.clone(),
                model: model.clone(),
            },
        ),
        _ => None,
    }
}

} // verus!
