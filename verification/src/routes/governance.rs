//! The governance documents: the configuration snapshot, the release record and the change
//! plan, each as the JSON object of its fields.
use vstd::prelude::*;
use crate::json::{JsonValue, JsonView};
use crate::domain::{ChangePlan, ConfigSnapshot, ReleaseRecord};
use crate::governance::{change_plan, config_snapshot, release_record};
use crate::bridge;
use crate::text;

verus! {

pub open spec fn snapshot_json(s: ConfigSnapshot) -> JsonView {
    JsonView::Object(
        seq![
            ("id"@, JsonView::Str(s.id@)),
            ("source"@, JsonView::Str(s.source@)),
            ("summary"@, JsonView::Str(s.summary@)),
        ],
    )
}

pub open spec fn record_json(r: ReleaseRecord) -> JsonView {
    JsonView::Object(
        seq![
            ("id"@, JsonView::Str(r.id@)),
            ("note"@, JsonView::Str(r.note@)),
            ("version"@, JsonView::Str(r.version@)),
        ],
    )
}

pub open spec fn plan_json(p: ChangePlan) -> JsonView {
    JsonView::Object(
        seq![
            ("id"@, JsonView::Str(p.id@)),
            ("status"@, JsonView::Str(p.status@)),
            ("title"@, JsonView::Str(p.title@)),
        ],
    )
}

/// A configuration snapshot as JSON.
pub fn config_snapshot_json(s: &ConfigSnapshot) -> (r: JsonValue)
    ensures
        r@ == snapshot_json(*s),
{
    bridge::object3(
        "id",
        bridge::jstr(s.id.as_str()),
        "source",
        bridge::jstr(s.source.as_str()),
        "summary",
        bridge::jstr(s.summary.as_str()),
    )
}

/// A release record as JSON.
pub fn release_record_json(r: &ReleaseRecord) -> (j: JsonValue)
    ensures
        j@ == record_json(*r),
{
    bridge::object3(
        "id",
        bridge::jstr(r.id.as_str()),
        "note",
        bridge::jstr(r.note.as_str()),
        "version",
        bridge::jstr(r.version.as_str()),
    )
}

/// A change plan as JSON.
pub fn change_plan_json(p: &ChangePlan) -> (r: JsonValue)
    ensures
        r@ == plan_json(*p),
{
    bridge::object3(
        "id",
        bridge::jstr(p.id.as_str()),
        "status",
        bridge::jstr(p.status.as_str()),
        "title",
        bridge::jstr(p.title.as_str()),
    )
}

/// The snapshot of the control plane's configuration, taken now.
pub fn get_config_snapshot() -> (r: JsonValue)
    ensures
        exists|s: ConfigSnapshot| #[trigger] snapshot_json(s) == r@ && s.summary@
            == "sqlite-backed control-plane snapshot"@ && s.source@ == "runtime"@ && exists|millis: i64|
            s.id@ == "cfg-"@ + #[trigger] text::int_text(millis as int),
{
    let s = config_snapshot::capture("sqlite-backed control-plane snapshot", "runtime");
    config_snapshot_json(&s)
}

/// The draft release record of the provider rollout, stamped now.
pub fn get_release_record() -> (r: JsonValue)
    ensures
        exists|rec: ReleaseRecord| #[trigger] record_json(rec) == r@ && rec.note@ == "sqlite-backed provider rollout"@
            && rec.version@ == "v0-draft"@ && exists|millis: i64| rec.id@ == "rel-"@ + #[trigger] text::int_text(
            millis as int,
        ),
{
    let rec = release_record::draft("sqlite-backed provider rollout");
    release_record_json(&rec)
}

/// The draft change plan for the control-plane reads, stamped now.
pub fn get_change_plan() -> (r: JsonValue)
    ensures
        exists|p: ChangePlan| #[trigger] plan_json(p) == r@ && p.title@ == "promote sqlite control-plane reads"@
            && p.status@ == "draft"@ && exists|millis: i64| p.id@ == "chg-"@ + #[trigger] text::int_text(millis as int),
{
    let p = change_plan::draft("promote sqlite control-plane reads");
    change_plan_json(&p)
}

} // verus!
