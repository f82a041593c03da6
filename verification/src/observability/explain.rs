//! The one-line explanation of a routing decision.
use vstd::prelude::*;
use crate::routing::{RoutingDecision, explain_text};

verus! {

/// `model=<model> provider=<provider> reason=<reason>`.
pub fn explain(decision: &RoutingDecision) -> (r: String)
    ensures
        r@ == explain_text(*decision),
{
    let mut s = String::from_str("model=");
    s.append(decision.model.as_str());
    s.append(" provider=");
    s.append(decision.selected_provider.as_str());
    s.append(" reason=");
    s.append(decision.reason.as_str());
    s
}

} // verus!
