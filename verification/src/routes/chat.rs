//! Chat completions, served through the OpenClaw gateway.
use vstd::prelude::*;
use crate::json::JsonValue;
use crate::errors::AppError;
use crate::providers::GatewayProvider;
use crate::routing::{decide_provider, default_policy};
use crate::observability::explain::explain;
use crate::bridge;
use crate::text;

verus! {

/// A chat completion request.
pub struct ChatCompletionRequest {
    pub model: String,
    pub messages: Vec<ChatMessage>,
    pub stream: Option<bool>,
}

/// A message of a chat.
pub struct ChatMessage {
    pub role: String,
    pub content: String,
}

/// The text a chat asks about: the content of its last message, or nothing.
pub open spec fn last_content(messages: Seq<ChatMessage>) -> Seq<char> {
    if messages.len() == 0 {
        seq![]
    } else {
        messages.last().content@
    }
}

impl ChatCompletionRequest {
    /// The content of the last message, or an empty text.
    pub fn user_text(&self) -> (r: String)
        ensures
            r@ == last_content(self.messages@),
    {
        let n = self.messages.len();
        if n == 0 {
            String::new()
        } else {
            self.messages[n - 1].content.clone()
        }
    }
}

/// How the routing of a model to the OpenClaw gateway is explained.
pub open spec fn gateway_explain(model: Seq<char>) -> Seq<char> {
    "model="@ + model + " provider="@ + "gateway.openclaw"@ + " reason="@ + "sqlite-backed provider selected"@
}

/// A reply and the explanation of how it was routed.
pub struct RoutedReply {
    pub routing_explain: String,
    pub body: JsonValue,
}

/// Answers a chat completion request through the gateway: the routing explanation and the
/// gateway's completion of the last message, or, where the upstream did not answer its
/// readiness check (`upstream_ready`), the upstream is unavailable.
pub fn create_chat_completion(
    payload: &ChatCompletionRequest,
    gateway: &GatewayProvider,
    upstream_ready: bool,
) -> (r: Result<RoutedReply, AppError>)
    ensures
        !upstream_ready ==> r == Err::<RoutedReply, AppError>(AppError::UpstreamUnavailable),
        upstream_ready ==> (r matches Ok(reply) && reply.routing_explain@ == gateway_explain(payload.model@)
            && exists|millis: i64, secs: i64|
            reply.body@ == #[trigger] bridge::chat_completion_view(
                "chatcmpl-proxy-"@ + text::int_text(millis as int),
                secs,
                payload.model@,
                "proxy mapped: "@ + last_content(payload.messages@),
            )),
{
    let user_text = payload.user_text();
    let policy = default_policy();
    let decision = decide_provider(payload.model.as_str(), &policy, None);
    let explain_text = explain(&decision);
    match gateway.chat(payload.model.as_str(), user_text.as_str(), upstream_ready) {
        Ok(body) => Ok(RoutedReply { routing_explain: explain_text, body }),
        Err(_) => Err(AppError::UpstreamUnavailable),
    }
}

} // verus!
