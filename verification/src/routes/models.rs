//! The model list.
use vstd::prelude::*;
use crate::domain::ModelCatalogEntry;
use crate::quota::opt_view;
use crate::clock;

verus! {

/// The model list answer.
pub struct ModelList {
    pub object: String,
    pub data: Vec<ModelItem>,
}

/// A listed model.
pub struct ModelItem {
    pub id: String,
    pub object: String,
    pub created: i64,
    pub owned_by: String,
}

/// How a catalog entry is listed at `now`: under its alias or else its canonical name, owned
/// by its provider hint or else `openclaw`.
pub open spec fn listed(e: ModelCatalogEntry, now: i64) -> (Seq<char>, Seq<char>, i64, Seq<char>) {
    (
        match opt_view(e.alias) {
            Some(a) => a,
            None => e.canonical_name@,
        },
        "model"@,
        now,
        match opt_view(e.provider_hint) {
            Some(h) => h,
            None => "openclaw"@,
        },
    )
}

pub open spec fn item_view(m: ModelItem) -> (Seq<char>, Seq<char>, i64, Seq<char>) {
    (m.id@, m.object@, m.created, m.owned_by@)
}

/// The list answer for the catalog's entries, stamped `now`.
pub open spec fn lists(r: ModelList, entries: Seq<ModelCatalogEntry>, now: i64) -> bool {
    &&& r.object@ == "list"@
    &&& r.data@.len() == entries.len()
    &&& forall|i: int| 0 <= i < entries.len() ==> #[trigger] item_view(r.data@[i]) == listed(entries[i], now)
}

/// The model list for the catalog's entries, in order, stamped `now` (seconds).
pub fn list_models_at(entries: &[ModelCatalogEntry], now: i64) -> (r: ModelList)
    ensures
        lists(r, entries@, now),
{
    let mut data: Vec<ModelItem> = Vec::new();
    let mut i: usize = 0;
    while i < entries.len()
        invariant
            i <= entries@.len(),
            data@.len() == i,
            forall|j: int| 0 <= j < i ==> #[trigger] item_view(data@[j]) == listed(entries@[j], now),
        decreases entries@.len() - i,
    {
        let e = &entries[i];
        let id = match &e.alias {
            Some(a) => a.clone(),
            None => e.canonical_name.clone(),
        };
        let owned_by = match &e.provider_hint {
            Some(h) => h.clone(),
            None => String::from_str("openclaw"),
        };
        data.push(ModelItem { id, object: String::from_str("model"), created: now, owned_by });
        i = i + 1;
    }
    ModelList { object: String::from_str("list"), data }
}

/// The model list for the catalog's entries, stamped now.
pub fn list_models(entries: &[ModelCatalogEntry]) -> (r: ModelList)
    ensures
        exists|now: i64| #[trigger] lists(r, entries@, now),
{
    let (_, secs) = clock::utc_now_millis_and_secs();
    list_models_at(entries, secs)
}

} // verus!
