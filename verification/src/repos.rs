//! The in-memory store of models, providers and audit lines, and the repositories over it.
use vstd::prelude::*;
use crate::domain::{
    DeepCopy,
    ModelCatalogEntry,
    ProviderDescriptor,
    ProviderClass,
    copy_all,
    copy_opt,
    views,
    configured_entry,
    load_from_config,
    class_from_name,
    provider_class_from_name,
};
use crate::quota::opt_view;
use crate::pool::{text_lt, text_less, lemma_text_lt_transitive, lemma_text_lt_irreflexive};
use crate::governance::audit::AuditEvent;

verus! {

/// Models, providers and audit lines held in memory.
pub struct InMemoryStore {
    pub models: Vec<ModelCatalogEntry>,
    pub providers: Vec<ProviderDescriptor>,
    pub audit_events: Vec<String>,
}

/// What a store holds.
pub struct StoreView {
    pub models: Seq<(Seq<char>, Option<Seq<char>>, Option<Seq<char>>)>,
    pub providers: Seq<(Seq<char>, crate::domain::ProviderClass, bool, Option<Seq<char>>, Option<Seq<char>>)>,
    pub audit_events: Seq<Seq<char>>,
}

impl View for InMemoryStore {
    type V = StoreView;

    open spec fn view(&self) -> StoreView {
        StoreView {
            models: views(self.models@),
            providers: views(self.providers@),
            audit_events: views(self.audit_events@),
        }
    }
}

impl InMemoryStore {
    /// An empty store.
    pub fn new() -> (r: Self)
        ensures
            r@.models.len() == 0,
            r@.providers.len() == 0,
            r@.audit_events.len() == 0,
    {
        InMemoryStore { models: Vec::new(), providers: Vec::new(), audit_events: Vec::new() }
    }
}

/// The catalog of models. A repository holds no data of its own: it works on the store it
/// is handed, so every repository handed one store sees what any of them wrote to it.
pub struct ModelRepository {}

impl ModelRepository {
    pub fn new() -> (r: Self) {
        ModelRepository {}
    }

    /// The models the store holds, in order.
    pub fn list(&self, store: &InMemoryStore) -> (r: Vec<ModelCatalogEntry>)
        ensures
            views(r@) == store@.models,
    {
        copy_all(&store.models)
    }

    /// Replaces the models the store holds by `entries`; its providers and audit lines stay.
    pub fn replace_all(&self, store: &mut InMemoryStore, entries: Vec<ModelCatalogEntry>)
        ensures
            final(store)@ == with_models(old(store)@, views(entries@)),
    {
        store.models = entries;
    }
}

/// The pool of providers, over the store it is handed.
pub struct ProviderRepository {}

impl ProviderRepository {
    pub fn new() -> (r: Self) {
        ProviderRepository {}
    }

    /// The providers the store holds, in order.
    pub fn list(&self, store: &InMemoryStore) -> (r: Vec<ProviderDescriptor>)
        ensures
            views(r@) == store@.providers,
    {
        copy_all(&store.providers)
    }

    /// Replaces the providers the store holds by `entries`; its models and audit lines stay.
    pub fn replace_all(&self, store: &mut InMemoryStore, entries: Vec<ProviderDescriptor>)
        ensures
            final(store)@ == with_providers(old(store)@, views(entries@)),
    {
        store.providers = entries;
    }
}

/// Where audit events are kept on disk (the store's path).
pub struct SqliteAuditRepository {
    pub dsn: String,
}

impl SqliteAuditRepository {
    pub fn new(dsn: String) -> (r: Self)
        ensures
            r.dsn@ == dsn@,
    {
        SqliteAuditRepository { dsn }
    }
}

/// The audit trail: the details of the events in the store it is handed, mirrored on disk
/// where a store path is set.
pub struct AuditRepository {
    pub sqlite: Option<SqliteAuditRepository>,
}

impl AuditRepository {
    pub fn new() -> (r: Self)
        ensures
            r.sqlite is None,
    {
        AuditRepository { sqlite: None }
    }

    pub fn with_sqlite(sqlite: SqliteAuditRepository) -> (r: Self)
        ensures
            r.sqlite == Some(sqlite),
    {
        AuditRepository { sqlite: Some(sqlite) }
    }

    /// Adds the event's detail at the end of the store's trail; its models and providers stay.
    pub fn append(&self, store: &mut InMemoryStore, event: &AuditEvent)
        ensures
            final(store)@ == with_audit_line(old(store)@, event.detail@),
    {
        let ghost before = store.audit_events@;
        store.audit_events.push(event.detail.clone());
        assert(views(store.audit_events@) =~= views(before).push(event.detail@));
    }

    /// The details of the events in the store, oldest first.
    pub fn list(&self, store: &InMemoryStore) -> (r: Vec<String>)
        ensures
            views(r@) == store@.audit_events,
    {
        copy_all(&store.audit_events)
    }
}

/// The model catalog on disk, with the in-memory store it is handed to fall back on.
pub struct SqliteModelRepository {
    pub dsn: String,
}

impl SqliteModelRepository {
    pub fn new(dsn: String) -> (r: Self)
        ensures
            r.dsn@ == dsn@,
    {
        SqliteModelRepository { dsn }
    }

    /// The catalog, from the canonical names that the model table gave (each served by the
    /// OpenClaw gateway), or the fallback's models where the table could not be read.
    pub fn list(&self, fallback: &InMemoryStore, read: Option<Vec<String>>) -> (r: Vec<ModelCatalogEntry>)
        ensures
            match read {
                Some(names) => {
                    &&& strictly_ascending(entry_names(views(r@)))
                    &&& forall|x: Seq<char>| entry_names(views(r@)).contains(x) <==> views(names@).contains(x)
                    &&& forall|i: int| 0 <= i < r@.len() ==> #[trigger] r@[i]@ == configured_entry(r@[i]@.0)
                },
                None => views(r@) == fallback@.models,
            },
    {
        match read {
            Some(names) => {
                let sorted = sorted_names(&names);
                let r = load_from_config(sorted.as_slice());
                assert(entry_names(views(r@)) =~= views(sorted@));
                r
            },
            None => copy_all(&fallback.models),
        }
    }
}

/// Texts in strictly ascending text order: sorted, each once.
pub open spec fn strictly_ascending(s: Seq<Seq<char>>) -> bool {
    forall|i: int, j: int| 0 <= i < j < s.len() ==> text_lt(#[trigger] s[i], #[trigger] s[j])
}

/// The canonical names of catalog entries.
pub open spec fn entry_names(es: Seq<(Seq<char>, Option<Seq<char>>, Option<Seq<char>>)>) -> Seq<Seq<char>> {
    es.map_values(|e: (Seq<char>, Option<Seq<char>>, Option<Seq<char>>)| e.0)
}

/// Of two different texts, one comes first.
pub proof fn lemma_text_lt_total(a: Seq<char>, b: Seq<char>)
    requires
        a != b,
    ensures
        text_lt(a, b) || text_lt(b, a),
    decreases a.len(),
{
    if a.len() == 0 || b.len() == 0 {
        if a.len() == 0 && b.len() == 0 {
            assert(a =~= b);
        }
    } else if a[0] == b[0] {
        let ta = a.drop_first();
        let tb = b.drop_first();
        if ta =~= tb {
            assert(a.len() == b.len());
            assert forall|i: int| 0 <= i < a.len() implies a[i] == b[i] by {
                if i > 0 {
                    assert(a[i] == ta[i - 1]);
                    assert(b[i] == tb[i - 1]);
                }
            }
            assert(a =~= b);
        }
        lemma_text_lt_total(ta, tb);
        assert(text_lt(a, b) == text_lt(ta, tb));
        assert(text_lt(b, a) == text_lt(tb, ta));
    } else {
        vstd::utf8::char_u32_cast(a[0], a[0] as u32);
        vstd::utf8::char_u32_cast(b[0], b[0] as u32);
    }
}

/// Inserting a text between the ones it follows and the ones it precedes keeps the texts
/// strictly ascending, and adds just that text.
proof fn lemma_insert_ascending(before: Seq<Seq<char>>, p: int, name: Seq<char>)
    requires
        strictly_ascending(before),
        0 <= p <= before.len(),
        forall|q: int| 0 <= q < p ==> text_lt(#[trigger] before[q], name),
        p < before.len() ==> text_lt(name, before[p]),
    ensures
        strictly_ascending(before.insert(p, name)),
        forall|x: Seq<char>| before.insert(p, name).contains(x) <==> (before.contains(x) || x == name),
{
    let n = before.insert(p, name);
    before.insert_ensures(p, name);
    assert forall|i: int, j: int| 0 <= i < j < n.len() implies text_lt(#[trigger] n[i], #[trigger] n[j]) by {
        if j < p {
            assert(n[i] == before[i] && n[j] == before[j]);
        } else if j == p {
            assert(n[i] == before[i]);
        } else if i < p {
            assert(n[i] == before[i] && n[j] == before[j - 1]);
            assert(text_lt(before[i], name));
            assert(text_lt(name, before[p]));
            lemma_text_lt_transitive(before[i], name, before[p]);
            if j - 1 > p {
                lemma_text_lt_transitive(before[i], before[p], before[j - 1]);
            }
        } else if i == p {
            assert(n[j] == before[j - 1]);
            if j - 1 > p {
                lemma_text_lt_transitive(name, before[p], before[j - 1]);
            }
        } else {
            assert(n[i] == before[i - 1] && n[j] == before[j - 1]);
        }
    }
    assert forall|x: Seq<char>| n.contains(x) <==> (before.contains(x) || x == name) by {
        if n.contains(x) {
            let k = choose|k: int| 0 <= k < n.len() && n[k] == x;
            if k < p {
                assert(before[k] == x);
            } else if k > p {
                assert(before[k - 1] == x);
            }
        }
        if before.contains(x) {
            let k = choose|k: int| 0 <= k < before.len() && before[k] == x;
            if k < p {
                assert(n[k] == x);
            } else {
                assert(n[k + 1] == x);
            }
        }
        if x == name {
            assert(n[p] == x);
        }
    }
}

/// Adds a text to a strictly ascending list of texts where it is not yet there.
fn insert_name(out: &mut Vec<String>, name: &str)
    requires
        strictly_ascending(views(old(out)@)),
    ensures
        strictly_ascending(views(final(out)@)),
        forall|x: Seq<char>| views(final(out)@).contains(x) <==> (views(old(out)@).contains(x) || x == name@),
{
    let ghost before = views(out@);
    assert(before == views(old(out)@));
    let mut p: usize = 0;
    while p < out.len()
        invariant
            p <= out@.len(),
            before == views(out@),
            strictly_ascending(before),
            forall|q: int| 0 <= q < p ==> text_lt(#[trigger] before[q], name@),
        ensures
            p <= out@.len(),
            p < out@.len() ==> !text_lt(before[p as int], name@),
            forall|q: int| 0 <= q < p ==> text_lt(#[trigger] before[q], name@),
        decreases out@.len() - p,
    {
        if !text_less(out[p].as_str(), name) {
            break;
        }
        p = p + 1;
    }
    if p < out.len() && !text_less(name, out[p].as_str()) {
        proof {
            if before[p as int] != name@ {
                lemma_text_lt_total(before[p as int], name@);
            }
            assert(before.contains(name@)) by {
                assert(before[p as int] == name@);
            }
            assert forall|x: Seq<char>| views(out@).contains(x) <==> (before.contains(x) || x == name@) by {
                if x == name@ {
                    assert(views(out@)[p as int] == x);
                }
            }
            assert(forall|x: Seq<char>| views(out@).contains(x) <==> (views(old(out)@).contains(x) || x == name@));
        }
        return;
    }
    proof {
        if p < before.len() {
            if before[p as int] == name@ {
                lemma_text_lt_irreflexive(name@);
            }
            lemma_text_lt_total(before[p as int], name@);
        }
        lemma_insert_ascending(before, p as int, name@);
    }
    out.insert(p, String::from_str(name));
    assert(views(out@) =~= before.insert(p as int, name@));
    assert forall|x: Seq<char>| views(out@).contains(x) <==> (before.contains(x) || x == name@) by {
        assert(before.insert(p as int, name@).contains(x) <==> (before.contains(x) || x == name@));
    }
    assert(forall|x: Seq<char>| views(out@).contains(x) <==> (views(old(out)@).contains(x) || x == name@));
}

/// The texts in strictly ascending text order, each once.
fn sorted_names(names: &Vec<String>) -> (r: Vec<String>)
    ensures
        strictly_ascending(views(r@)),
        forall|x: Seq<char>| views(r@).contains(x) <==> views(names@).contains(x),
{
    let mut r: Vec<String> = Vec::new();
    let mut i: usize = 0;
    while i < names.len()
        invariant
            i <= names@.len(),
            strictly_ascending(views(r@)),
            forall|x: Seq<char>| views(r@).contains(x) <==> views(names@).take(i as int).contains(x),
        decreases names@.len() - i,
    {
        proof {
            assert(views(names@).take(i + 1) =~= views(names@).take(i as int).push(names@[i as int]@));
        }
        insert_name(&mut r, names[i].as_str());
        proof {
            assert forall|x: Seq<char>| views(r@).contains(x) <==> views(names@).take(i + 1).contains(x) by {
                let t = views(names@).take(i as int);
                if x == names@[i as int]@ {
                    assert(t.push(x)[i as int] == x);
                }
                if t.push(names@[i as int]@).contains(x) {
                    let k = choose|k: int| 0 <= k < t.push(names@[i as int]@).len() && t.push(names@[i as int]@)[k] == x;
                    if k < i {
                        assert(t[k] == x);
                    }
                }
                if t.contains(x) {
                    let k = choose|k: int| 0 <= k < t.len() && t[k] == x;
                    assert(t.push(names@[i as int]@)[k] == x);
                }
            }
        }
        i = i + 1;
    }
    assert(views(names@).take(names@.len() as int) =~= views(names@));
    r
}

/// Two strictly ascending lists of the same texts are the same list: a listing sorted in
/// text order with each text once is fixed by the texts it holds.
pub proof fn lemma_ascending_listing_unique(a: Seq<Seq<char>>, b: Seq<Seq<char>>)
    requires
        strictly_ascending(a),
        strictly_ascending(b),
        forall|x: Seq<char>| a.contains(x) <==> b.contains(x),
    ensures
        a == b,
    decreases a.len(),
{
    if a.len() == 0 {
        if b.len() > 0 {
            assert(b.contains(b[0]));
        }
        assert(a =~= b);
    } else {
        assert(a.contains(a[0]));
        assert(b.len() > 0);
        assert(b.contains(b[0]));
        let k = choose|k: int| 0 <= k < b.len() && b[k] == a[0];
        let m = choose|m: int| 0 <= m < a.len() && a[m] == b[0];
        if k > 0 {
            assert(text_lt(b[0], b[k]));
            if m > 0 {
                assert(text_lt(a[0], a[m]));
                lemma_text_lt_transitive(a[0], b[0], a[0]);
            }
            lemma_text_lt_irreflexive(a[0]);
        }
        assert(a[0] == b[0]);
        let ta = a.drop_first();
        let tb = b.drop_first();
        assert forall|x: Seq<char>| ta.contains(x) <==> tb.contains(x) by {
            if ta.contains(x) {
                let i = choose|i: int| 0 <= i < ta.len() && ta[i] == x;
                assert(a[i + 1] == x);
                assert(text_lt(a[0], a[i + 1]));
                assert(b.contains(x));
                let j = choose|j: int| 0 <= j < b.len() && b[j] == x;
                if j == 0 {
                    lemma_text_lt_irreflexive(x);
                }
                assert(tb[j - 1] == x);
            }
            if tb.contains(x) {
                let i = choose|i: int| 0 <= i < tb.len() && tb[i] == x;
                assert(b[i + 1] == x);
                assert(text_lt(b[0], b[i + 1]));
                assert(a.contains(x));
                let j = choose|j: int| 0 <= j < a.len() && a[j] == x;
                if j == 0 {
                    lemma_text_lt_irreflexive(x);
                }
                assert(ta[j - 1] == x);
            }
        }
        assert(strictly_ascending(ta)) by {
            assert forall|i: int, j: int| 0 <= i < j < ta.len() implies text_lt(#[trigger] ta[i], #[trigger] ta[j]) by {
                assert(ta[i] == a[i + 1] && ta[j] == a[j + 1]);
            }
        }
        assert(strictly_ascending(tb)) by {
            assert forall|i: int, j: int| 0 <= i < j < tb.len() implies text_lt(#[trigger] tb[i], #[trigger] tb[j]) by {
                assert(tb[i] == b[i + 1] && tb[j] == b[j + 1]);
            }
        }
        lemma_ascending_listing_unique(ta, tb);
        assert(a =~= b) by {
            assert forall|i: int| 0 <= i < a.len() implies a[i] == b[i] by {
                if i > 0 {
                    assert(a[i] == ta[i - 1] && b[i] == tb[i - 1]);
                }
            }
        }
    }
}

/// A provider's routing facts for one model.
pub struct ProviderRoutingRow {
    pub id: String,
    pub availability_status: Option<String>,
    pub supports_responses_api: Option<bool>,
}

/// The provider pool on disk, with the in-memory store it is handed to fall back on.
pub struct SqliteProviderRepository {
    pub dsn: String,
}

impl SqliteProviderRepository {
    pub fn new(dsn: String) -> (r: Self)
        ensures
            r.dsn@ == dsn@,
    {
        SqliteProviderRepository { dsn }
    }

    /// The providers, from the rows that the provider table gave ordered by id, or the
    /// fallback's providers where the table could not be read.
    pub fn list(&self, fallback: &InMemoryStore, read: Option<Vec<ProviderRow>>) -> (r: Vec<ProviderDescriptor>)
        ensures
            match read {
                Some(rows) => exists|idx: Seq<usize>|
                    #[trigger] id_order(rows@, rows@.len() as int, idx) && r@.len() == idx.len() && forall|k: int|
                        0 <= k < idx.len() ==> #[trigger] r@[k]@ == provider_of_row(rows@[idx[k] as int]),
                None => views(r@) == fallback@.providers,
            },
    {
        match read {
            Some(rows) => {
                let idx = rows_by_id(rows.as_slice());
                let mut r: Vec<ProviderDescriptor> = Vec::new();
                let mut k: usize = 0;
                while k < idx.len()
                    invariant
                        k <= idx@.len(),
                        r@.len() == k,
                        id_order(rows@, rows@.len() as int, idx@),
                        forall|j: int| 0 <= j < k ==> #[trigger] r@[j]@ == provider_of_row(rows@[idx@[j] as int]),
                    decreases idx@.len() - k,
                {
                    let row = &rows[idx[k]];
                    r.push(
                        ProviderDescriptor {
                            id: row.id.clone(),
                            class: provider_class_from_name(row.class.as_str()),
                            enabled: row.enabled != 0,
                            base_url: copy_opt(&row.base_url),
                            api_key_hint: copy_opt(&row.api_key_hint),
                        },
                    );
                    k = k + 1;
                }
                r
            },
            None => copy_all(&fallback.providers),
        }
    }
}

/// `idx` lists each of the first `n` rows of the provider table once, ascending by id.
pub open spec fn id_order(rows: Seq<ProviderRow>, n: int, idx: Seq<usize>) -> bool {
    &&& idx.len() == n
    &&& forall|k: int| 0 <= k < idx.len() ==> (#[trigger] idx[k]) < n
    &&& forall|i: int| 0 <= i < n ==> #[trigger] idx.contains(i as usize)
    &&& forall|k: int, l: int| 0 <= k < l < idx.len() ==> (#[trigger] idx[k]) != (#[trigger] idx[l])
    &&& forall|k: int, l: int|
        0 <= k < l < idx.len() ==> !text_lt(rows[(#[trigger] idx[l]) as int].id@, rows[(#[trigger] idx[k]) as int].id@)
}

/// Where the table's ids are pairwise distinct (the id is the table's key), the listing by
/// id is strictly ascending: the seeded providers come back in id order, each once.
pub proof fn lemma_distinct_ids_listed_ascending(rows: Seq<ProviderRow>, idx: Seq<usize>)
    requires
        id_order(rows, rows.len() as int, idx),
        forall|i: int, j: int| 0 <= i < j < rows.len() ==> (#[trigger] rows[i]).id@ != (#[trigger] rows[j]).id@,
    ensures
        strictly_ascending(idx.map_values(|k: usize| rows[k as int].id@)),
{
    let ids = idx.map_values(|k: usize| rows[k as int].id@);
    assert forall|k: int, l: int| 0 <= k < l < ids.len() implies text_lt(#[trigger] ids[k], #[trigger] ids[l]) by {
        let a = idx[k] as int;
        let b = idx[l] as int;
        assert(a != b);
        if a < b {
            assert(rows[a].id@ != rows[b].id@);
        } else {
            assert(rows[b].id@ != rows[a].id@);
        }
        lemma_text_lt_total(rows[a].id@, rows[b].id@);
    }
}

/// Inserting a row's index after the listed rows whose ids do not follow its id, and before
/// the first that does, keeps the listing ordered by id.
#[verifier::spinoff_prover]
proof fn lemma_insert_by_id(rows: Seq<ProviderRow>, i: int, old_idx: Seq<usize>, p: int, n: Seq<usize>)
    requires
        0 <= i < rows.len(),
        i <= usize::MAX,
        id_order(rows, i, old_idx),
        0 <= p <= old_idx.len(),
        forall|q: int| 0 <= q < p ==> !text_lt(rows[i].id@, rows[(#[trigger] old_idx[q]) as int].id@),
        p < old_idx.len() ==> text_lt(rows[i].id@, rows[old_idx[p] as int].id@),
        n == old_idx.insert(p, i as usize),
    ensures
        id_order(rows, i + 1, n),
{
    old_idx.insert_ensures(p, i as usize);
    assert forall|k: int| 0 <= k < n.len() implies (#[trigger] n[k]) < i + 1 by {
        if k < p {
            assert(n[k] == old_idx[k]);
        } else if k > p {
            assert(n[k] == old_idx[k - 1]);
        }
    }
    assert forall|j: int| 0 <= j < i + 1 implies #[trigger] n.contains(j as usize) by {
        if j == i {
            assert(n[p] == i as usize);
        } else {
            assert(old_idx.contains(j as usize));
            let k = choose|k: int| 0 <= k < old_idx.len() && old_idx[k] == j as usize;
            if k < p {
                assert(n[k] == old_idx[k]);
            } else {
                assert(n[k + 1] == old_idx[k]);
            }
        }
    }
    assert forall|k: int, l: int| 0 <= k < l < n.len() implies (#[trigger] n[k]) != (#[trigger] n[l]) by {
        if k < p && l < p {
            assert(n[k] == old_idx[k] && n[l] == old_idx[l]);
        } else if k < p && l == p {
            assert(n[k] == old_idx[k]);
        } else if k < p && l > p {
            assert(n[k] == old_idx[k] && n[l] == old_idx[l - 1]);
        } else if k == p {
            assert(n[l] == old_idx[l - 1]);
        } else {
            assert(n[k] == old_idx[k - 1] && n[l] == old_idx[l - 1]);
        }
    }
    assert forall|k: int, l: int| 0 <= k < l < n.len() implies !text_lt(rows[(#[trigger] n[l]) as int].id@, rows[(#[trigger] n[k]) as int].id@) by {
        if k < p && l < p {
            assert(n[k] == old_idx[k] && n[l] == old_idx[l]);
        } else if k < p && l == p {
            assert(n[k] == old_idx[k]);
        } else if k < p && l > p {
            assert(n[k] == old_idx[k] && n[l] == old_idx[l - 1]);
        } else if k == p {
            assert(n[l] == old_idx[l - 1]);
            let after = rows[old_idx[p] as int].id@;
            let x = rows[n[l] as int].id@;
            if l - 1 > p {
                assert(!text_lt(x, after));
            }
            if text_lt(x, rows[i].id@) {
                lemma_text_lt_transitive(x, rows[i].id@, after);
                if l - 1 == p {
                    lemma_text_lt_irreflexive(after);
                }
            }
        } else {
            assert(n[k] == old_idx[k - 1] && n[l] == old_idx[l - 1]);
        }
    }
}

/// The rows of the provider table ascending by id (rows with one id in table order), as
/// indices into the rows.
fn rows_by_id(rows: &[ProviderRow]) -> (r: Vec<usize>)
    ensures
        id_order(rows@, rows@.len() as int, r@),
{
    let mut idx: Vec<usize> = Vec::new();
    let mut i: usize = 0;
    while i < rows.len()
        invariant
            i <= rows@.len(),
            id_order(rows@, i as int, idx@),
        decreases rows@.len() - i,
    {
        let r = &rows[i];
        let mut p: usize = 0;
        while p < idx.len()
            invariant
                p <= idx@.len(),
                i < rows@.len(),
                *r == rows@[i as int],
                id_order(rows@, i as int, idx@),
                forall|q: int| 0 <= q < p ==> !text_lt(rows@[i as int].id@, rows@[(#[trigger] idx@[q]) as int].id@),
            ensures
                p <= idx@.len(),
                id_order(rows@, i as int, idx@),
                forall|q: int| 0 <= q < p ==> !text_lt(rows@[i as int].id@, rows@[(#[trigger] idx@[q]) as int].id@),
                p < idx@.len() ==> text_lt(rows@[i as int].id@, rows@[idx@[p as int] as int].id@),
            decreases idx@.len() - p,
        {
            if text_less(r.id.as_str(), rows[idx[p]].id.as_str()) {
                break;
            }
            p = p + 1;
        }
        let ghost old_idx = idx@;
        idx.insert(p, i);
        proof {
            lemma_insert_by_id(rows@, i as int, old_idx, p as int, idx@);
        }
        i = i + 1;
    }
    idx
}

/// A row of the provider table: the class as written, `enabled` as an integer.
pub struct ProviderRow {
    pub id: String,
    pub class: String,
    pub enabled: i64,
    pub base_url: Option<String>,
    pub api_key_hint: Option<String>,
}

/// The provider a row describes: an unknown class reads as the gateway, any nonzero
/// `enabled` as enabled.
pub open spec fn provider_of_row(row: ProviderRow) -> (Seq<char>, ProviderClass, bool, Option<Seq<char>>, Option<Seq<char>>) {
    (row.id@, class_from_name(row.class@), row.enabled != 0, opt_view(row.base_url), opt_view(row.api_key_hint))
}

/// The store with its models replaced.
pub open spec fn with_models(s: StoreView, models: Seq<(Seq<char>, Option<Seq<char>>, Option<Seq<char>>)>) -> StoreView {
    StoreView { models, ..s }
}

/// The store with its providers replaced.
pub open spec fn with_providers(
    s: StoreView,
    providers: Seq<(Seq<char>, crate::domain::ProviderClass, bool, Option<Seq<char>>, Option<Seq<char>>)>,
) -> StoreView {
    StoreView { providers, ..s }
}

/// The store with one more audit line.
pub open spec fn with_audit_line(s: StoreView, line: Seq<char>) -> StoreView {
    StoreView { audit_events: s.audit_events.push(line), ..s }
}

/// A listing of the models after a replacement gives the models that replaced the old
/// ones, and leaves the providers and audit lines as they were.
pub proof fn lemma_models_read_after_write(
    s: StoreView,
    models: Seq<(Seq<char>, Option<Seq<char>>, Option<Seq<char>>)>,
)
    ensures
        with_models(s, models).models == models,
        with_models(s, models).providers == s.providers,
        with_models(s, models).audit_events == s.audit_events,
{
}

/// A listing of the providers after a replacement gives the providers that replaced the
/// old ones, and leaves the models and audit lines as they were.
pub proof fn lemma_providers_read_after_write(
    s: StoreView,
    providers: Seq<(Seq<char>, crate::domain::ProviderClass, bool, Option<Seq<char>>, Option<Seq<char>>)>,
)
    ensures
        with_providers(s, providers).providers == providers,
        with_providers(s, providers).models == s.models,
        with_providers(s, providers).audit_events == s.audit_events,
{
}

/// Appending a line makes the trail one longer with that line last, the earlier lines
/// unchanged and in order.
pub proof fn lemma_audit_append_then_list(s: StoreView, line: Seq<char>)
    ensures
        with_audit_line(s, line).audit_events.len() == s.audit_events.len() + 1,
        with_audit_line(s, line).audit_events.last() == line,
        with_audit_line(s, line).audit_events.drop_last() == s.audit_events,
        forall|i: int| 0 <= i < s.audit_events.len() ==> #[trigger] with_audit_line(s, line).audit_events[i] == s.audit_events[i],
{
    assert(s.audit_events.push(line).drop_last() =~= s.audit_events);
}

/// What seeding writes for a provider: its row (its class by name, `https` where it has a
/// base URL and else `ws`, `enabled` as 1 or 0), and the model it is made capable of and
/// available for, under the ids of those two rows.
pub struct ProviderSeed {
    pub id: String,
    pub class: String,
    pub protocol: String,
    pub enabled: i64,
    pub base_url: Option<String>,
    pub api_key_hint: Option<String>,
    pub model_name: String,
    pub capability_id: String,
    pub availability_id: String,
}

/// The model a seeded provider serves: `gpt-4o-mini` for the OpenAI-compatible demo API,
/// else `openclaw-default`.
pub open spec fn seeded_model(id: Seq<char>) -> Seq<char> {
    if id == "api.openai-compatible-demo"@ {
        "gpt-4o-mini"@
    } else {
        "openclaw-default"@
    }
}

pub open spec fn seed_matches(s: ProviderSeed, p: ProviderDescriptor) -> bool {
    let model = seeded_model(p.id@);
    &&& s.id@ == p.id@
    &&& s.class@ == crate::domain::class_name(p.class)
    &&& s.protocol@ == if p.base_url is Some { "https"@ } else { "ws"@ }
    &&& s.enabled == if p.enabled { 1i64 } else { 0i64 }
    &&& opt_view(s.base_url) == opt_view(p.base_url)
    &&& opt_view(s.api_key_hint) == opt_view(p.api_key_hint)
    &&& s.model_name@ == model
    &&& s.capability_id@ == p.id@ + "::"@ + model
    &&& s.availability_id@ == model + "::"@ + p.id@
}

fn join_ids(a: &str, b: &str) -> (r: String)
    ensures
        r@ == a@ + "::"@ + b@,
{
    let mut s = String::from_str(a);
    s.append("::");
    s.append(b);
    s
}

impl SqliteProviderRepository {
    /// What seeding the given providers writes, provider by provider.
    pub fn seed_rows(&self, entries: &[ProviderDescriptor]) -> (r: Vec<ProviderSeed>)
        ensures
            r@.len() == entries@.len(),
            forall|i: int| 0 <= i < entries@.len() ==> #[trigger] seed_matches(r@[i], entries@[i]),
    {
        let mut r: Vec<ProviderSeed> = Vec::new();
        let mut i: usize = 0;
        while i < entries.len()
            invariant
                i <= entries@.len(),
                r@.len() == i,
                forall|j: int| 0 <= j < i ==> #[trigger] seed_matches(r@[j], entries@[j]),
            decreases entries@.len() - i,
        {
            let p = &entries[i];
            let model = if p.id == String::from_str("api.openai-compatible-demo") {
                "gpt-4o-mini"
            } else {
                "openclaw-default"
            };
            r.push(
                ProviderSeed {
                    id: p.id.clone(),
                    class: String::from_str(crate::domain::provider_class_name(p.class)),
                    protocol: String::from_str(if p.base_url.is_some() { "https" } else { "ws" }),
                    enabled: if p.enabled { 1 } else { 0 },
                    base_url: copy_opt(&p.base_url),
                    api_key_hint: copy_opt(&p.api_key_hint),
                    model_name: String::from_str(model),
                    capability_id: join_ids(p.id.as_str(), model),
                    availability_id: join_ids(model, p.id.as_str()),
                },
            );
            i = i + 1;
        }
        r
    }
}

impl SqliteAuditRepository {
    /// The id an event is stored under: `audit-<action>-<at>`.
    pub fn row_id(event: &AuditEvent) -> (r: String)
        ensures
            r@ == "audit-"@ + event.action@ + "-"@ + crate::text::int_text(event.at as int),
    {
        let mut s = String::from_str("audit-");
        s.append(event.action.as_str());
        s.append("-");
        let at = crate::text::i64_to_text(event.at);
        s.append(at.as_str());
        s
    }
}

} // verus!
