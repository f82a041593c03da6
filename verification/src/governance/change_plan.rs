//! Drafting a change plan.
use vstd::prelude::*;
use crate::domain::ChangePlan;
use crate::text;
use crate::clock;
use crate::bridge::prefixed_number;

verus! {

/// The draft plan with the given title, stamped with `millis`.
pub fn draft_at(title: &str, millis: i64) -> (r: ChangePlan)
    ensures
        r.id@ == "chg-"@ + text::int_text(millis as int),
        r.title@ == title@,
        r.status@ == "draft"@,
{
    ChangePlan { id: prefixed_number("chg-", millis), title: String::from_str(title), status: String::from_str("draft") }
}

/// The draft plan with the given title, stamped now.
pub fn draft(title: &str) -> (r: ChangePlan)
    ensures
        exists|millis: i64| r.id@ == "chg-"@ + #[trigger] text::int_text(millis as int),
        r.title@ == title@,
        r.status@ == "draft"@,
{
    let (millis, _) = clock::utc_now_millis_and_secs();
    draft_at(title, millis)
}

} // verus!
