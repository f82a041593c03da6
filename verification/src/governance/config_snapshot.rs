//! Capturing a snapshot of the configuration.
use vstd::prelude::*;
use crate::domain::ConfigSnapshot;
use crate::text;
use crate::clock;
use crate::bridge::prefixed_number;

verus! {

/// The snapshot with the given summary and source, stamped with `millis`.
pub fn capture_at(summary: &str, source: &str, millis: i64) -> (r: ConfigSnapshot)
    ensures
        r.id@ == "cfg-"@ + text::int_text(millis as int),
        r.summary@ == summary@,
        r.source@ == source@,
{
    ConfigSnapshot { id: prefixed_number("cfg-", millis), summary: String::from_str(summary), source: String::from_str(source) }
}

/// The snapshot with the given summary and source, stamped now.
pub fn capture(summary: &str, source: &str) -> (r: ConfigSnapshot)
    ensures
        exists|millis: i64| r.id@ == "cfg-"@ + #[trigger] text::int_text(millis as int),
        r.summary@ == summary@,
        r.source@ == source@,
{
    let (millis, _) = clock::utc_now_millis_and_secs();
    capture_at(summary, source, millis)
}

} // verus!
