//! Drafting a release record.
use vstd::prelude::*;
use crate::domain::ReleaseRecord;
use crate::text;
use crate::clock;
use crate::bridge::prefixed_number;

verus! {

/// The draft release with the given note, stamped with `millis`.
pub fn draft_at(note: &str, millis: i64) -> (r: ReleaseRecord)
    ensures
        r.id@ == "rel-"@ + text::int_text(millis as int),
        r.version@ == "v0-draft"@,
        r.note@ == note@,
{
    ReleaseRecord { id: prefixed_number("rel-", millis), version: String::from_str("v0-draft"), note: String::from_str(note) }
}

/// The draft release with the given note, stamped now.
pub fn draft(note: &str) -> (r: ReleaseRecord)
    ensures
        exists|millis: i64| r.id@ == "rel-"@ + #[trigger] text::int_text(millis as int),
        r.version@ == "v0-draft"@,
        r.note@ == note@,
{
    let (millis, _) = clock::utc_now_millis_and_secs();
    draft_at(note, millis)
}

} // verus!
