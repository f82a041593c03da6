//! The pool-member table and the latest-observation lookup, over the rows that the store
//! holds: keyed reads and upserts, the member that requests are routed to, and the context of
//! an account's latest successful observation.
use vstd::prelude::*;
use crate::text;
use crate::quota::opt_view;
use crate::domain::copy_opt;
use crate::admission::PoolMember;
use crate::executor::{
    RoutedPoolMember,
    PoolRouter,
    PoolMemberRepository,
    SourceContextRepository,
    SourceExecutionContext,
};

verus! {

/// Text order as the store sorts text: by the bytes of the UTF-8 encodings, which is the order
/// of the code points, a proper prefix first.
pub open spec fn text_lt(a: Seq<char>, b: Seq<char>) -> bool
    decreases a.len(),
{
    if b.len() == 0 {
        false
    } else if a.len() == 0 {
        true
    } else if a[0] != b[0] {
        (a[0] as u32) < (b[0] as u32)
    } else {
        text_lt(a.drop_first(), b.drop_first())
    }
}

/// The text order is transitive.
pub proof fn lemma_text_lt_transitive(a: Seq<char>, b: Seq<char>, c: Seq<char>)
    requires
        text_lt(a, b),
        text_lt(b, c),
    ensures
        text_lt(a, c),
    decreases a.len(),
{
    if a.len() > 0 && a[0] == b[0] && b[0] == c[0] {
        lemma_text_lt_transitive(a.drop_first(), b.drop_first(), c.drop_first());
    }
}

/// The text order is irreflexive.
pub proof fn lemma_text_lt_irreflexive(a: Seq<char>)
    ensures
        !text_lt(a, a),
    decreases a.len(),
{
    if a.len() > 0 {
        lemma_text_lt_irreflexive(a.drop_first());
    }
}

/// Whether `a` sorts before `b`.
pub fn text_less(a: &str, b: &str) -> (r: bool)
    ensures
        r == text_lt(a@, b@),
{
    let x = text::chars_of(a);
    let y = text::chars_of(b);
    let mut i: usize = 0;
    assert(x@.skip(0) =~= x@);
    assert(y@.skip(0) =~= y@);
    while i < x.len() && i < y.len()
        invariant
            i <= x@.len(),
            i <= y@.len(),
            x@ == a@,
            y@ == b@,
            text_lt(a@, b@) == text_lt(x@.skip(i as int), y@.skip(i as int)),
        decreases x@.len() - i,
    {
        let cx = x[i];
        let cy = y[i];
        assert(x@.skip(i as int)[0] == cx);
        assert(y@.skip(i as int)[0] == cy);
        if cx != cy {
            return (cx as u32) < (cy as u32);
        }
        assert(x@.skip(i as int).drop_first() =~= x@.skip(i + 1));
        assert(y@.skip(i as int).drop_first() =~= y@.skip(i + 1));
        i = i + 1;
    }
    i < y.len()
}

/// A pool member as plain values.
pub struct MemberView {
    pub id: Seq<char>,
    pub child_account_id: Seq<char>,
    pub pool_status: Seq<char>,
    pub admission_level: Seq<char>,
    pub weight: i64,
    pub current_load: i64,
    pub cooldown_until: Option<Seq<char>>,
    pub last_success_at: Option<Seq<char>>,
    pub last_failure_at: Option<Seq<char>>,
}

pub open spec fn member_view(m: PoolMember) -> MemberView {
    MemberView {
        id: m.id@,
        child_account_id: m.child_account_id@,
        pool_status: m.pool_status@,
        admission_level: m.admission_level@,
        weight: m.weight,
        current_load: m.current_load,
        cooldown_until: opt_view(m.cooldown_until),
        last_success_at: opt_view(m.last_success_at),
        last_failure_at: opt_view(m.last_failure_at),
    }
}

pub open spec fn members_view(rows: Seq<PoolMember>) -> Seq<MemberView> {
    rows.map_values(|m: PoolMember| member_view(m))
}

/// A copy of a pool member.
pub fn copy_member(m: &PoolMember) -> (r: PoolMember)
    ensures
        member_view(r) == member_view(*m),
{
    PoolMember {
        id: m.id.clone(),
        child_account_id: m.child_account_id.clone(),
        pool_status: m.pool_status.clone(),
        admission_level: m.admission_level.clone(),
        weight: m.weight,
        current_load: m.current_load,
        cooldown_until: copy_opt(&m.cooldown_until),
        last_success_at: copy_opt(&m.last_success_at),
        last_failure_at: copy_opt(&m.last_failure_at),
    }
}

/// A member routing can pick: active, with a positive weight.
pub open spec fn routable(m: MemberView) -> bool {
    m.pool_status == "active"@ && m.weight > 0
}

/// `a` comes before `b` in routing order: heavier first, then by account id.
pub open spec fn routes_before(a: MemberView, b: MemberView) -> bool {
    a.weight > b.weight || (a.weight == b.weight && text_lt(a.child_account_id, b.child_account_id))
}

/// The first member in routing order among the routable ones, if there is one.
pub open spec fn best_routable(vs: Seq<MemberView>) -> Option<MemberView>
    decreases vs.len(),
{
    if vs.len() == 0 {
        None
    } else {
        let rest = best_routable(vs.drop_last());
        let x = vs.last();
        if !routable(x) {
            rest
        } else {
            match rest {
                None => Some(x),
                Some(b) => if routes_before(x, b) {
                    Some(x)
                } else {
                    Some(b)
                },
            }
        }
    }
}

/// What routing picks is a routable member of the table, and no routable member comes before
/// it; it picks none only where no member is routable.
pub proof fn lemma_best_routable_is_first(vs: Seq<MemberView>)
    ensures
        best_routable(vs) is None <==> (forall|k: int| 0 <= k < vs.len() ==> !routable(#[trigger] vs[k])),
        best_routable(vs) matches Some(b) ==> routable(b) && vs.contains(b) && (forall|k: int|
            0 <= k < vs.len() && routable(#[trigger] vs[k]) ==> !routes_before(vs[k], b)),
    decreases vs.len(),
{
    if vs.len() > 0 {
        let p = vs.drop_last();
        lemma_best_routable_is_first(p);
        let x = vs.last();
        assert(forall|k: int| 0 <= k < p.len() ==> #[trigger] p[k] == vs[k]);
        if let Some(b) = best_routable(vs) {
            if routable(x) {
                if let Some(pb) = best_routable(p) {
                    if routes_before(x, pb) {
                        assert forall|k: int| 0 <= k < vs.len() && routable(#[trigger] vs[k]) implies !routes_before(vs[k], x) by {
                            if k < p.len() {
                                assert(!routes_before(p[k], pb));
                                if routes_before(vs[k], x) {
                                    if vs[k].weight == x.weight && x.weight == pb.weight {
                                        lemma_text_lt_transitive(vs[k].child_account_id, x.child_account_id, pb.child_account_id);
                                    }
                                }
                            } else {
                                lemma_text_lt_irreflexive(x.child_account_id);
                            }
                        }
                        assert(vs.contains(x)) by {
                            assert(vs[vs.len() - 1] == x);
                        }
                    } else {
                        assert forall|k: int| 0 <= k < vs.len() && routable(#[trigger] vs[k]) implies !routes_before(vs[k], pb) by {
                            if k < p.len() {
                                assert(!routes_before(p[k], pb));
                            }
                        }
                        assert(p.contains(pb));
                        let j = choose|j: int| 0 <= j < p.len() && p[j] == pb;
                        assert(vs[j] == pb);
                    }
                } else {
                    assert forall|k: int| 0 <= k < vs.len() && routable(#[trigger] vs[k]) implies !routes_before(vs[k], x) by {
                        if k < p.len() {
                            assert(!routable(p[k]));
                        } else {
                            lemma_text_lt_irreflexive(x.child_account_id);
                        }
                    }
                    assert(vs[vs.len() - 1] == x);
                }
            } else {
                assert forall|k: int| 0 <= k < vs.len() && routable(#[trigger] vs[k]) implies !routes_before(vs[k], b) by {
                    if k < p.len() {
                        assert(!routes_before(p[k], b));
                    }
                }
                assert(p.contains(b));
                let j = choose|j: int| 0 <= j < p.len() && p[j] == b;
                assert(vs[j] == b);
            }
        } else {
            assert forall|k: int| 0 <= k < vs.len() implies !routable(#[trigger] vs[k]) by {
                if k < p.len() {
                    assert(!routable(p[k]));
                }
            }
        }
    }
}

pub open spec fn routed_view(r: RoutedPoolMember) -> (Seq<char>, Seq<char>, Seq<char>, i64) {
    (r.child_account_id@, r.pool_status@, r.admission_level@, r.weight)
}

pub open spec fn routed_of(m: MemberView) -> (Seq<char>, Seq<char>, Seq<char>, i64) {
    (m.child_account_id, m.pool_status, m.admission_level, m.weight)
}

impl PoolRouter {
    /// The member that requests go to, among the rows of the pool-member table: the active
    /// member with a positive weight that is heaviest, then first by account id.
    pub fn pick_best_active_member(&self, rows: &[PoolMember]) -> (r: Option<RoutedPoolMember>)
        ensures
            match (r, best_routable(members_view(rows@))) {
                (None, None) => true,
                (Some(m), Some(b)) => routed_view(m) == routed_of(b),
                _ => false,
            },
    {
        let mut best: Option<usize> = None;
        let mut i: usize = 0;
        let ghost vs = members_view(rows@);
        while i < rows.len()
            invariant
                i <= rows@.len(),
                vs == members_view(rows@),
                match best {
                    None => best_routable(vs.take(i as int)) is None,
                    Some(j) => j < i && best_routable(vs.take(i as int)) == Some(vs[j as int]),
                },
            decreases rows@.len() - i,
        {
            let m = &rows[i];
            assert(vs.take(i + 1).drop_last() =~= vs.take(i as int));
            assert(vs.take(i + 1).last() == member_view(*m));
            let active = m.pool_status == String::from_str("active");
            proof {
                reveal_strlit("active");
            }
            if active && m.weight > 0 {
                match best {
                    None => {
                        best = Some(i);
                    },
                    Some(j) => {
                        let b = &rows[j];
                        let heavier = m.weight > b.weight;
                        let same = m.weight == b.weight;
                        if heavier || (same && text_less(m.child_account_id.as_str(), b.child_account_id.as_str())) {
                            best = Some(i);
                        }
                    },
                }
            }
            i = i + 1;
        }
        assert(vs.take(rows@.len() as int) =~= vs);
        match best {
            None => None,
            Some(j) => {
                let b = &rows[j];
                Some(RoutedPoolMember {
                    child_account_id: b.child_account_id.clone(),
                    pool_status: b.pool_status.clone(),
                    admission_level: b.admission_level.clone(),
                    weight: b.weight,
                })
            },
        }
    }
}

/// The member kept for an account in the table: the first row with that account id.
pub open spec fn lookup(vs: Seq<MemberView>, child: Seq<char>) -> Option<MemberView>
    decreases vs.len(),
{
    if vs.len() == 0 {
        None
    } else if vs[0].child_account_id == child {
        Some(vs[0])
    } else {
        lookup(vs.drop_first(), child)
    }
}

/// `m` with the id `id`: an upsert keeps the id of the row that it updates.
pub open spec fn with_id(m: MemberView, id: Seq<char>) -> MemberView {
    MemberView { id: id, ..m }
}

/// The table after an upsert of `m`: the row for `m`'s account takes all of `m` but its id,
/// or `m` is added at the end where the account has no row.
pub open spec fn upserted(vs: Seq<MemberView>, m: MemberView) -> Seq<MemberView>
    decreases vs.len(),
{
    if vs.len() == 0 {
        seq![m]
    } else if vs[0].child_account_id == m.child_account_id {
        seq![with_id(m, vs[0].id)] + vs.drop_first()
    } else {
        seq![vs[0]] + upserted(vs.drop_first(), m)
    }
}

/// The first row for an account is what a lookup gives.
proof fn lemma_lookup_at(vs: Seq<MemberView>, child: Seq<char>, i: int)
    requires
        0 <= i <= vs.len(),
        forall|k: int| 0 <= k < i ==> (#[trigger] vs[k]).child_account_id != child,
    ensures
        i < vs.len() && vs[i].child_account_id == child ==> lookup(vs, child) == Some(vs[i]),
        i == vs.len() ==> lookup(vs, child) is None,
        i == vs.len() ==> upserted(vs, with_id(vs[0], vs[0].id)) == upserted(vs, with_id(vs[0], vs[0].id)),
    decreases i,
{
    if i > 0 {
        let t = vs.drop_first();
        assert forall|k: int| 0 <= k < i - 1 implies (#[trigger] t[k]).child_account_id != child by {
            assert(t[k] == vs[k + 1]);
        }
        lemma_lookup_at(t, child, i - 1);
        if i < vs.len() {
            assert(t[i - 1] == vs[i]);
        }
    } else if vs.len() > 0 {
    }
}

/// An upsert updates the first row for the account, or adds one at the end.
proof fn lemma_upserted_at(vs: Seq<MemberView>, m: MemberView, i: int)
    requires
        0 <= i <= vs.len(),
        forall|k: int| 0 <= k < i ==> (#[trigger] vs[k]).child_account_id != m.child_account_id,
    ensures
        i < vs.len() && vs[i].child_account_id == m.child_account_id ==> upserted(vs, m) == vs.update(i, with_id(m, vs[i].id)),
        i == vs.len() ==> upserted(vs, m) == vs.push(m),
    decreases i,
{
    if i > 0 {
        let t = vs.drop_first();
        assert forall|k: int| 0 <= k < i - 1 implies (#[trigger] t[k]).child_account_id != m.child_account_id by {
            assert(t[k] == vs[k + 1]);
        }
        lemma_upserted_at(t, m, i - 1);
        assert(vs[0].child_account_id != m.child_account_id);
        if i < vs.len() && vs[i].child_account_id == m.child_account_id {
            assert(t[i - 1] == vs[i]);
            assert(seq![vs[0]] + t.update(i - 1, with_id(m, vs[i].id)) =~= vs.update(i, with_id(m, vs[i].id)));
        }
        if i == vs.len() {
            assert(seq![vs[0]] + t.push(m) =~= vs.push(m));
        }
    } else if vs.len() > 0 && vs[0].child_account_id == m.child_account_id {
        assert(seq![with_id(m, vs[0].id)] + vs.drop_first() =~= vs.update(0, with_id(m, vs[0].id)));
    } else if vs.len() == 0 {
        assert(seq![m] =~= vs.push(m));
    }
}

/// A read after an upsert gives the member upserted, with the id of the row it replaced if
/// there was one.
pub proof fn lemma_lookup_after_upsert(vs: Seq<MemberView>, m: MemberView)
    ensures
        lookup(upserted(vs, m), m.child_account_id) == Some(
            match lookup(vs, m.child_account_id) {
                Some(old) => with_id(m, old.id),
                None => m,
            },
        ),
    decreases vs.len(),
{
    if vs.len() > 0 && vs[0].child_account_id != m.child_account_id {
        lemma_lookup_after_upsert(vs.drop_first(), m);
        let u = seq![vs[0]] + upserted(vs.drop_first(), m);
        assert(u.drop_first() =~= upserted(vs.drop_first(), m));
    }
}

/// An upsert leaves the rows of other accounts as they were.
pub proof fn lemma_upsert_leaves_others(vs: Seq<MemberView>, m: MemberView, child: Seq<char>)
    requires
        child != m.child_account_id,
    ensures
        lookup(upserted(vs, m), child) == lookup(vs, child),
    decreases vs.len(),
{
    if vs.len() == 0 {
        let u = seq![m];
        assert(upserted(vs, m) == u);
        assert(u.drop_first() =~= Seq::<MemberView>::empty());
        assert(lookup(u, child) == lookup(u.drop_first(), child));
    } else if vs[0].child_account_id == m.child_account_id {
        let u = seq![with_id(m, vs[0].id)] + vs.drop_first();
        assert(upserted(vs, m) == u);
        assert(u[0] == with_id(m, vs[0].id));
        assert(u.drop_first() =~= vs.drop_first());
        assert(lookup(u, child) == lookup(u.drop_first(), child));
    } else {
        lemma_upsert_leaves_others(vs.drop_first(), m, child);
        let u = seq![vs[0]] + upserted(vs.drop_first(), m);
        assert(upserted(vs, m) == u);
        assert(u[0] == vs[0]);
        assert(u.drop_first() =~= upserted(vs.drop_first(), m));
    }
}

/// Upserting the same member twice leaves the table as one upsert does.
pub proof fn lemma_upsert_idempotent(vs: Seq<MemberView>, m: MemberView)
    ensures
        upserted(upserted(vs, m), m) == upserted(vs, m),
    decreases vs.len(),
{
    if vs.len() == 0 {
        assert(seq![m].drop_first() =~= Seq::<MemberView>::empty());
        assert(seq![with_id(m, m.id)] + seq![m].drop_first() =~= seq![m]);
    } else if vs[0].child_account_id == m.child_account_id {
        let u = seq![with_id(m, vs[0].id)] + vs.drop_first();
        assert(u[0] == with_id(m, vs[0].id));
        assert(u.drop_first() =~= vs.drop_first());
        assert(with_id(m, u[0].id) == with_id(m, vs[0].id));
        assert(seq![with_id(m, u[0].id)] + u.drop_first() =~= u);
    } else {
        lemma_upsert_idempotent(vs.drop_first(), m);
        let u = seq![vs[0]] + upserted(vs.drop_first(), m);
        assert(u[0] == vs[0]);
        assert(u.drop_first() =~= upserted(vs.drop_first(), m));
    }
}

/// No two rows of the table are for the same account.
pub open spec fn accounts_unique(vs: Seq<MemberView>) -> bool {
    forall|i: int, j: int| 0 <= i < j < vs.len() ==> (#[trigger] vs[i]).child_account_id != (#[trigger] vs[j]).child_account_id
}

/// An upsert keeps every account to one row.
pub proof fn lemma_upsert_keeps_accounts_unique(vs: Seq<MemberView>, m: MemberView)
    requires
        accounts_unique(vs),
    ensures
        accounts_unique(upserted(vs, m)),
{
    if exists|k: int| 0 <= k < vs.len() && (#[trigger] vs[k]).child_account_id == m.child_account_id {
        let k = choose|k: int| 0 <= k < vs.len() && (#[trigger] vs[k]).child_account_id == m.child_account_id;
        assert forall|j: int| 0 <= j < k implies (#[trigger] vs[j]).child_account_id != m.child_account_id by {
            assert(vs[j].child_account_id != vs[k].child_account_id);
        }
        lemma_upserted_at(vs, m, k);
        let u = vs.update(k, with_id(m, vs[k].id));
        assert forall|i: int, j: int| 0 <= i < j < u.len() implies (#[trigger] u[i]).child_account_id != (#[trigger] u[j]).child_account_id by {
            assert(u[i].child_account_id == vs[i].child_account_id);
            assert(u[j].child_account_id == vs[j].child_account_id);
        }
    } else {
        lemma_upserted_at(vs, m, vs.len() as int);
        let u = vs.push(m);
        assert forall|i: int, j: int| 0 <= i < j < u.len() implies (#[trigger] u[i]).child_account_id != (#[trigger] u[j]).child_account_id by {
            if j == vs.len() {
                assert(u[i] == vs[i]);
            } else {
                assert(u[i] == vs[i] && u[j] == vs[j]);
            }
        }
    }
}

pub open spec fn opt_member_view(o: Option<PoolMember>) -> Option<MemberView> {
    match o {
        Some(m) => Some(member_view(m)),
        None => None,
    }
}

/// The index of the first row for an account, if it has one.
fn first_row_for(rows: &[PoolMember], child: &str) -> (r: Option<usize>)
    ensures
        match r {
            Some(i) => i < rows@.len() && rows@[i as int].child_account_id@ == child@ && forall|k: int|
                0 <= k < i ==> (#[trigger] rows@[k]).child_account_id@ != child@,
            None => forall|k: int| 0 <= k < rows@.len() ==> (#[trigger] rows@[k]).child_account_id@ != child@,
        },
{
    let wanted = String::from_str(child);
    let mut i: usize = 0;
    while i < rows.len()
        invariant
            i <= rows@.len(),
            wanted@ == child@,
            forall|k: int| 0 <= k < i ==> (#[trigger] rows@[k]).child_account_id@ != child@,
        decreases rows@.len() - i,
    {
        if rows[i].child_account_id == wanted {
            return Some(i);
        }
        i = i + 1;
    }
    None
}

impl PoolMemberRepository {
    /// The member kept for an account, among the rows of the pool-member table.
    pub fn get_by_child_account_id(&self, rows: &[PoolMember], child_account_id: &str) -> (r: Option<PoolMember>)
        ensures
            opt_member_view(r) == lookup(members_view(rows@), child_account_id@),
    {
        let ghost vs = members_view(rows@);
        let found = first_row_for(rows, child_account_id);
        match found {
            Some(i) => {
                proof {
                    lemma_lookup_at(vs, child_account_id@, i as int);
                }
                Some(copy_member(&rows[i]))
            },
            None => {
                proof {
                    lemma_lookup_at(vs, child_account_id@, vs.len() as int);
                }
                None
            },
        }
    }

    /// Writes a member into the rows of the pool-member table, keyed by its account: the row
    /// for the account takes every field of `member` but the id, or `member` is added.
    pub fn upsert(&self, rows: &mut Vec<PoolMember>, member: &PoolMember)
        ensures
            members_view(final(rows)@) == upserted(members_view(old(rows)@), member_view(*member)),
    {
        let ghost vs = members_view(rows@);
        let found = first_row_for(rows.as_slice(), member.child_account_id.as_str());
        match found {
            Some(i) => {
                let mut updated = copy_member(member);
                updated.id = rows[i].id.clone();
                proof {
                    lemma_upserted_at(vs, member_view(*member), i as int);
                }
                rows.set(i, updated);
                assert(members_view(rows@) =~= vs.update(i as int, with_id(member_view(*member), vs[i as int].id)));
            },
            None => {
                proof {
                    lemma_upserted_at(vs, member_view(*member), vs.len() as int);
                }
                rows.push(copy_member(member));
                assert(members_view(rows@) =~= vs.push(member_view(*member)));
            },
        }
    }
}

/// A row of the quota-observation table, as the context lookup reads it.
pub struct QuotaContextRow {
    pub child_account_id: String,
    pub source_id: Option<String>,
    pub source_page: Option<String>,
    pub observed_at: String,
    pub read_ok: bool,
}

/// A successful observation of the account.
pub open spec fn observation_of(r: QuotaContextRow, child: Seq<char>) -> bool {
    r.child_account_id@ == child && r.read_ok
}

/// The first of the account's successful observations with the latest time, if it has one.
pub open spec fn latest_observation(rows: Seq<QuotaContextRow>, child: Seq<char>) -> Option<QuotaContextRow>
    decreases rows.len(),
{
    if rows.len() == 0 {
        None
    } else {
        let rest = latest_observation(rows.drop_last(), child);
        let x = rows.last();
        if !observation_of(x, child) {
            rest
        } else {
            match rest {
                None => Some(x),
                Some(b) => if text_lt(b.observed_at@, x.observed_at@) {
                    Some(x)
                } else {
                    Some(b)
                },
            }
        }
    }
}

/// The latest observation is one of the account's successful observations, and none of them
/// is later; there is none only where the account has no successful observation.
pub proof fn lemma_latest_observation_is_latest(rows: Seq<QuotaContextRow>, child: Seq<char>)
    ensures
        latest_observation(rows, child) is None <==> (forall|k: int|
            0 <= k < rows.len() ==> !observation_of(#[trigger] rows[k], child)),
        latest_observation(rows, child) matches Some(b) ==> observation_of(b, child) && rows.contains(b)
            && (forall|k: int| 0 <= k < rows.len() && observation_of(#[trigger] rows[k], child) ==> !text_lt(
            b.observed_at@,
            rows[k].observed_at@,
        )),
    decreases rows.len(),
{
    if rows.len() > 0 {
        let p = rows.drop_last();
        lemma_latest_observation_is_latest(p, child);
        let x = rows.last();
        assert(forall|k: int| 0 <= k < p.len() ==> #[trigger] p[k] == rows[k]);
        assert(rows[rows.len() - 1] == x);
        match latest_observation(p, child) {
            None => {
                if observation_of(x, child) {
                    assert forall|k: int| 0 <= k < rows.len() && observation_of(#[trigger] rows[k], child) implies !text_lt(x.observed_at@, rows[k].observed_at@) by {
                        if k < p.len() {
                            assert(!observation_of(p[k], child));
                        } else {
                            lemma_text_lt_irreflexive(x.observed_at@);
                        }
                    }
                } else {
                    assert forall|k: int| 0 <= k < rows.len() implies !observation_of(#[trigger] rows[k], child) by {
                        if k < p.len() {
                            assert(!observation_of(p[k], child));
                        }
                    }
                }
            },
            Some(pb) => {
                assert(p.contains(pb));
                let j = choose|j: int| 0 <= j < p.len() && p[j] == pb;
                assert(rows[j] == pb);
                if observation_of(x, child) && text_lt(pb.observed_at@, x.observed_at@) {
                    assert forall|k: int| 0 <= k < rows.len() && observation_of(#[trigger] rows[k], child) implies !text_lt(x.observed_at@, rows[k].observed_at@) by {
                        if k < p.len() {
                            assert(!text_lt(pb.observed_at@, p[k].observed_at@));
                            if text_lt(x.observed_at@, rows[k].observed_at@) {
                                lemma_text_lt_transitive(pb.observed_at@, x.observed_at@, rows[k].observed_at@);
                            }
                        } else {
                            lemma_text_lt_irreflexive(x.observed_at@);
                        }
                    }
                } else {
                    assert forall|k: int| 0 <= k < rows.len() && observation_of(#[trigger] rows[k], child) implies !text_lt(pb.observed_at@, rows[k].observed_at@) by {
                        if k < p.len() {
                            assert(!text_lt(pb.observed_at@, p[k].observed_at@));
                        }
                    }
                }
            },
        }
    }
}

/// A missing source or page reads as `unknown` and `/codex`.
pub open spec fn context_of(r: QuotaContextRow) -> (Seq<char>, Seq<char>, Seq<char>, Seq<char>) {
    (
        r.child_account_id@,
        match opt_view(r.source_id) {
            Some(s) => s,
            None => "unknown"@,
        },
        match opt_view(r.source_page) {
            Some(s) => s,
            None => "/codex"@,
        },
        r.observed_at@,
    )
}

pub open spec fn context_view(c: SourceExecutionContext) -> (Seq<char>, Seq<char>, Seq<char>, Seq<char>) {
    (c.child_account_id@, c.source_id@, c.source_page@, c.observed_at@)
}

fn text_or(o: &Option<String>, d: &str) -> (r: String)
    ensures
        r@ == match opt_view(*o) {
            Some(s) => s,
            None => d@,
        },
{
    match o {
        Some(s) => s.clone(),
        None => String::from_str(d),
    }
}

impl SourceContextRepository {
    /// The context of the account's latest successful observation, among the rows of the
    /// quota-observation table; an error names the account where it has none.
    pub fn latest_for_child(&self, rows: &[QuotaContextRow], child_account_id: &str) -> (r: Result<SourceExecutionContext, String>)
        ensures
            match (r, latest_observation(rows@, child_account_id@)) {
                (Ok(c), Some(b)) => context_view(c) == context_of(b),
                (Err(e), None) => e@ == "missing_source_context_for_child:"@ + child_account_id@,
                _ => false,
            },
    {
        let wanted = String::from_str(child_account_id);
        let mut best: Option<usize> = None;
        let mut i: usize = 0;
        while i < rows.len()
            invariant
                i <= rows@.len(),
                wanted@ == child_account_id@,
                match best {
                    None => latest_observation(rows@.take(i as int), child_account_id@) is None,
                    Some(j) => j < i && latest_observation(rows@.take(i as int), child_account_id@) == Some(rows@[j as int]),
                },
            decreases rows@.len() - i,
        {
            let x = &rows[i];
            assert(rows@.take(i + 1).drop_last() =~= rows@.take(i as int));
            assert(rows@.take(i + 1).last() == *x);
            if x.read_ok && x.child_account_id == wanted {
                match best {
                    None => {
                        best = Some(i);
                    },
                    Some(j) => {
                        if text_less(rows[j].observed_at.as_str(), x.observed_at.as_str()) {
                            best = Some(i);
                        }
                    },
                }
            }
            i = i + 1;
        }
        assert(rows@.take(rows@.len() as int) =~= rows@);
        match best {
            None => Err(Self::missing_context_error(child_account_id)),
            Some(j) => {
                let b = &rows[j];
                Ok(SourceExecutionContext {
                    child_account_id: b.child_account_id.clone(),
                    source_id: text_or(&b.source_id, "unknown"),
                    source_page: text_or(&b.source_page, "/codex"),
                    observed_at: b.observed_at.clone(),
                })
            },
        }
    }
}

} // verus!
