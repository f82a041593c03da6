//! Audit events of routing decisions.
use vstd::prelude::*;
use crate::routing::{RoutingDecision, explain_text};
use crate::clock;

verus! {

/// Something that happened, when (in seconds since the epoch), and its detail.
pub struct AuditEvent {
    pub at: i64,
    pub action: String,
    pub detail: String,
}

/// The audit event of a routing decision taken at `at`.
pub fn routing_event_at(decision: &RoutingDecision, at: i64) -> (r: AuditEvent)
    ensures
        r.at == at,
        r.action@ == "routing.decision"@,
        r.detail@ == explain_text(*decision),
{
    AuditEvent {
        at,
        action: String::from_str("routing.decision"),
        detail: crate::observability::explain::explain(decision),
    }
}

/// The audit event of a routing decision taken now.
pub fn routing_event(decision: &RoutingDecision) -> (r: AuditEvent)
    ensures
        r.action@ == "routing.decision"@,
        r.detail@ == explain_text(*decision),
{
    let (_, secs) = clock::utc_now_millis_and_secs();
    routing_event_at(decision, secs)
}

} // verus!
