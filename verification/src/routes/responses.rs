//! Responses, served by the Codex pool member that routing picks.
use vstd::prelude::*;
use crate::json::JsonValue;
use crate::errors::AppError;
use crate::routing::{decide_provider, default_policy, first_enabled};
use crate::observability::explain::explain;
use crate::governance::audit::{routing_event, AuditEvent};
use crate::repos::{AuditRepository, InMemoryStore, with_audit_line};
use crate::domain::ProviderDescriptor;
use crate::admission::PoolMember;
use crate::pool::{best_routable, members_view, latest_observation, context_of, QuotaContextRow};
use crate::executor::{PoolRouter, CodexExecutor, bridge_answer};
use crate::bridge;
use crate::text;

verus! {

/// A responses request.
pub struct ResponsesRequest {
    pub model: String,
    pub input: String,
    pub stream: Option<bool>,
}

/// What answering a responses request comes to: the audit event of its routing decision
/// (recorded whether or not it is served), and the reply or the error.
pub struct ResponseOutcome {
    pub audit_event: AuditEvent,
    pub reply: Result<PooledReply, AppError>,
}

/// A reply served by a pool member, with how it was routed, audited and served.
pub struct PooledReply {
    pub routing_explain: String,
    pub audit_action: String,
    pub pool_child_account_id: String,
    pub pool_admission_level: String,
    pub body: JsonValue,
}

/// The provider a model is routed to under the default policy: the first enabled provider
/// listed, else the OpenClaw gateway.
pub open spec fn default_route(providers: Option<Seq<ProviderDescriptor>>) -> Seq<char> {
    match providers {
        Some(ps) => match first_enabled(ps) {
            Some(id) => id,
            None => "gateway.openclaw"@,
        },
        None => "gateway.openclaw"@,
    }
}

/// How the routing of a model under the default policy is explained.
pub open spec fn default_explain(model: Seq<char>, providers: Option<Seq<ProviderDescriptor>>) -> Seq<char> {
    "model="@ + model + " provider="@ + default_route(providers) + " reason="@ + "sqlite-backed provider selected"@
}

pub open spec fn providers_view(p: Option<&[ProviderDescriptor]>) -> Option<Seq<ProviderDescriptor>> {
    match p {
        Some(ps) => Some(ps@),
        None => None,
    }
}

/// Answers a responses request. The routing decision for the model is explained and audited
/// first. Then, where the pool-member table could be read (`pool_members`), its routable
/// member that comes first serves the request from the context of its latest successful
/// observation (among `observations`) through the session bridge in `bridge_mode`. An
/// unreadable table is an internal error, a table without a routable member has no healthy
/// pool member, and a member without an observation, or a bridge that refuses, leaves the
/// upstream unavailable.
pub fn create_response(
    payload: &ResponsesRequest,
    providers: Option<&[ProviderDescriptor]>,
    audit: &AuditRepository,
    store: &mut InMemoryStore,
    pool_members: Option<&[PoolMember]>,
    observations: &[QuotaContextRow],
    sqlite_path: &str,
    bridge_mode: &str,
) -> (out: ResponseOutcome)
    ensures
        out.audit_event.action@ == "routing.decision"@,
        out.audit_event.detail@ == default_explain(payload.model@, providers_view(providers)),
        final(store)@ == with_audit_line(old(store)@, default_explain(payload.model@, providers_view(providers))),
        match pool_members {
            None => out.reply == Err::<PooledReply, AppError>(AppError::Internal),
            Some(rows) => match best_routable(members_view(rows@)) {
                None => out.reply == Err::<PooledReply, AppError>(AppError::NoHealthyPoolMember),
                Some(b) => match latest_observation(observations@, b.child_account_id) {
                    None => out.reply == Err::<PooledReply, AppError>(AppError::UpstreamUnavailable),
                    Some(o) => match bridge_answer(
                        bridge_mode@,
                        context_of(o).1,
                        context_of(o).2,
                        payload.input@,
                    ) {
                        Err(_) => out.reply == Err::<PooledReply, AppError>(AppError::UpstreamUnavailable),
                        Ok(answer) => out.reply matches Ok(reply) && reply.audit_action@ == "routing.decision"@
                            && reply.pool_child_account_id@ == b.child_account_id
                            && reply.pool_admission_level@ == b.admission_level
                            && reply.routing_explain@ == default_explain(payload.model@, providers_view(providers))
                            && exists|millis: i64, secs: i64|
                            reply.body@ == #[trigger] bridge::response_view(
                                "resp-codex-"@ + text::int_text(millis as int),
                                secs,
                                payload.model@,
                                "codex routed via "@ + b.child_account_id + " ["@ + b.admission_level
                                    + "] source="@ + context_of(o).1 + " page="@ + context_of(o).2 + ": "@
                                    + answer,
                            ),
                    },
                },
            },
        },
{
    let policy = default_policy();
    let decision = decide_provider(payload.model.as_str(), &policy, providers);
    let explain_text = explain(&decision);
    let event = routing_event(&decision);
    audit.append(store, &event);
    let action = event.action.clone();
    let reply = serve_response(payload, pool_members, observations, sqlite_path, bridge_mode, explain_text, action);
    ResponseOutcome { audit_event: event, reply }
}

fn serve_response(
    payload: &ResponsesRequest,
    pool_members: Option<&[PoolMember]>,
    observations: &[QuotaContextRow],
    sqlite_path: &str,
    bridge_mode: &str,
    routing_explain: String,
    audit_action: String,
) -> (r: Result<PooledReply, AppError>)
    ensures
        match pool_members {
            None => r == Err::<PooledReply, AppError>(AppError::Internal),
            Some(rows) => match best_routable(members_view(rows@)) {
                None => r == Err::<PooledReply, AppError>(AppError::NoHealthyPoolMember),
                Some(b) => match latest_observation(observations@, b.child_account_id) {
                    None => r == Err::<PooledReply, AppError>(AppError::UpstreamUnavailable),
                    Some(o) => match bridge_answer(
                        bridge_mode@,
                        context_of(o).1,
                        context_of(o).2,
                        payload.input@,
                    ) {
                        Err(_) => r == Err::<PooledReply, AppError>(AppError::UpstreamUnavailable),
                        Ok(answer) => r matches Ok(reply) && reply.audit_action@ == audit_action@
                            && reply.routing_explain@ == routing_explain@
                            && reply.pool_child_account_id@ == b.child_account_id
                            && reply.pool_admission_level@ == b.admission_level
                            && exists|millis: i64, secs: i64|
                            reply.body@ == #[trigger] bridge::response_view(
                                "resp-codex-"@ + text::int_text(millis as int),
                                secs,
                                payload.model@,
                                "codex routed via "@ + b.child_account_id + " ["@ + b.admission_level
                                    + "] source="@ + context_of(o).1 + " page="@ + context_of(o).2 + ": "@
                                    + answer,
                            ),
                    },
                },
            },
        },
{
    let rows = match pool_members {
        Some(rows) => rows,
        None => {
            return Err(AppError::Internal);
        },
    };
    let router = PoolRouter::new(String::from_str(sqlite_path));
    let member = match router.pick_best_active_member(rows) {
        Some(m) => m,
        None => {
            return Err(AppError::NoHealthyPoolMember);
        },
    };
    let executor = CodexExecutor::new(String::from_str(sqlite_path), String::from_str(bridge_mode));
    let body = match executor.execute_response(&member, observations, payload.model.as_str(), payload.input.as_str()) {
        Ok(v) => v,
        Err(_) => {
            return Err(AppError::UpstreamUnavailable);
        },
    };
    Ok(
        PooledReply {
            routing_explain,
            audit_action,
            pool_child_account_id: member.child_account_id,
            pool_admission_level: member.admission_level,
            body,
        },
    )
}

} // verus!
