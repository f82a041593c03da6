//! The operations overview: how the service is exposed, and the status counts of its tables.
use vstd::prelude::*;
use crate::pool::QuotaContextRow;
use crate::routes::codex::{read_count, lemma_read_counts_add_up};
use crate::pool::{text_lt, text_less, lemma_text_lt_transitive, lemma_text_lt_irreflexive};

verus! {

/// How many rows of a table have a status.
pub struct StatusCount {
    pub status: String,
    pub count: i64,
}

/// The rows of a table by status, and by the class of their status.
pub struct StatusBreakdown {
    pub total: i64,
    pub active_like: i64,
    pub blocked_like: i64,
    pub failed_like: i64,
    pub details: Vec<StatusCount>,
}

/// The class of a status: 1 for one that is under way or done, 2 for one that waits or is
/// held back, 3 for one that failed, 0 for any other.
pub open spec fn status_class(s: Seq<char>) -> int {
    if s == "pending"@ || s == "running"@ || s == "active"@ || s == "verified"@ || s == "automatable"@
        || s == "completed"@ {
        1
    } else if s == "blocked"@ || s == "retry_wait"@ || s == "waiting_mailbox"@ || s == "cooling"@
        || s == "frozen"@ || s == "needs_optimization"@ {
        2
    } else if s == "dead_letter"@ || s == "failed"@ || s == "read_failed"@ {
        3
    } else {
        0
    }
}

/// The sum of the counts of the statuses of a class.
pub open spec fn class_sum(details: Seq<StatusCount>, class: int) -> int
    decreases details.len(),
{
    if details.len() == 0 {
        0
    } else {
        class_sum(details.drop_last(), class) + if status_class(details.last().status@) == class {
            details.last().count as int
        } else {
            0
        }
    }
}

/// The sum of all counts.
pub open spec fn count_sum(details: Seq<StatusCount>) -> int
    decreases details.len(),
{
    if details.len() == 0 {
        0
    } else {
        count_sum(details.drop_last()) + details.last().count
    }
}

/// Adding up the counts of a class, in order, never leaves the range of `i64`.
pub open spec fn class_sum_fits(details: Seq<StatusCount>, class: int) -> bool {
    forall|i: int| 0 <= i <= details.len() ==> i64::MIN <= #[trigger] class_sum(details.take(i), class) <= i64::MAX
}

/// Every count falls in exactly one class: the classes add up to all the counts.
pub proof fn lemma_classes_partition(details: Seq<StatusCount>)
    ensures
        class_sum(details, 0) + class_sum(details, 1) + class_sum(details, 2) + class_sum(details, 3)
            == count_sum(details),
    decreases details.len(),
{
    if details.len() > 0 {
        lemma_classes_partition(details.drop_last());
    }
}

fn in_list(s: &String, names: &[&str]) -> (r: bool)
    ensures
        r == exists|k: int| 0 <= k < names@.len() && s@ == (#[trigger] names@[k])@,
{
    let mut i: usize = 0;
    while i < names.len()
        invariant
            i <= names@.len(),
            forall|k: int| 0 <= k < i ==> s@ != (#[trigger] names@[k])@,
        decreases names@.len() - i,
    {
        if *s == String::from_str(names[i]) {
            return true;
        }
        i = i + 1;
    }
    false
}

fn class_of(s: &String) -> (r: u8)
    ensures
        r as int == status_class(s@),
{
    let active = ["pending", "running", "active", "verified", "automatable", "completed"];
    let blocked = ["blocked", "retry_wait", "waiting_mailbox", "cooling", "frozen", "needs_optimization"];
    let failed = ["dead_letter", "failed", "read_failed"];
    let a = in_list(s, &active);
    let b = in_list(s, &blocked);
    let f = in_list(s, &failed);
    proof {
        if a {
            let k = choose|k: int| 0 <= k < 6 && s@ == (#[trigger] active@[k])@;
            assert(active@[k]@ == "pending"@ || active@[k]@ == "running"@ || active@[k]@ == "active"@
                || active@[k]@ == "verified"@ || active@[k]@ == "automatable"@ || active@[k]@ == "completed"@);
        } else {
            assert(s@ != active@[0]@ && s@ != active@[1]@ && s@ != active@[2]@ && s@ != active@[3]@
                && s@ != active@[4]@ && s@ != active@[5]@);
        }
        if b {
            let k = choose|k: int| 0 <= k < 6 && s@ == (#[trigger] blocked@[k])@;
            assert(blocked@[k]@ == "blocked"@ || blocked@[k]@ == "retry_wait"@ || blocked@[k]@ == "waiting_mailbox"@
                || blocked@[k]@ == "cooling"@ || blocked@[k]@ == "frozen"@ || blocked@[k]@ == "needs_optimization"@);
        } else {
            assert(s@ != blocked@[0]@ && s@ != blocked@[1]@ && s@ != blocked@[2]@ && s@ != blocked@[3]@
                && s@ != blocked@[4]@ && s@ != blocked@[5]@);
        }
        if f {
            let k = choose|k: int| 0 <= k < 3 && s@ == (#[trigger] failed@[k])@;
            assert(failed@[k]@ == "dead_letter"@ || failed@[k]@ == "failed"@ || failed@[k]@ == "read_failed"@);
        } else {
            assert(s@ != failed@[0]@ && s@ != failed@[1]@ && s@ != failed@[2]@);
        }
    }
    if a {
        1
    } else if b {
        2
    } else if f {
        3
    } else {
        0
    }
}

/// The breakdown of a table of `total` rows from its count per status: the counts of the
/// statuses under way or done, of those held back, and of those failed.
pub fn status_breakdown(total: i64, details: Vec<StatusCount>) -> (r: StatusBreakdown)
    requires
        class_sum_fits(details@, 1),
        class_sum_fits(details@, 2),
        class_sum_fits(details@, 3),
    ensures
        r.total == total,
        r.active_like == class_sum(details@, 1),
        r.blocked_like == class_sum(details@, 2),
        r.failed_like == class_sum(details@, 3),
        r.details@ == details@,
{
    let mut active: i64 = 0;
    let mut blocked: i64 = 0;
    let mut failed: i64 = 0;
    let mut i: usize = 0;
    while i < details.len()
        invariant
            i <= details@.len(),
            class_sum_fits(details@, 1),
            class_sum_fits(details@, 2),
            class_sum_fits(details@, 3),
            active == class_sum(details@.take(i as int), 1),
            blocked == class_sum(details@.take(i as int), 2),
            failed == class_sum(details@.take(i as int), 3),
        decreases details@.len() - i,
    {
        let ghost t = details@.take(i + 1);
        assert(t.drop_last() =~= details@.take(i as int));
        assert(t.last() == details@[i as int]);
        assert(i64::MIN <= class_sum(t, 1) <= i64::MAX);
        assert(i64::MIN <= class_sum(t, 2) <= i64::MAX);
        assert(i64::MIN <= class_sum(t, 3) <= i64::MAX);
        let c = class_of(&details[i].status);
        let n = details[i].count;
        if c == 1 {
            active = active + n;
        } else if c == 2 {
            blocked = blocked + n;
        } else if c == 3 {
            failed = failed + n;
        }
        i = i + 1;
    }
    assert(details@.take(details@.len() as int) =~= details@);
    StatusBreakdown { total, active_like: active, blocked_like: blocked, failed_like: failed, details }
}

/// The counts of the quota observations: all, read, failed.
pub struct QuotaSnapshotStats {
    pub total: i64,
    pub read_ok_total: i64,
    pub read_failed_total: i64,
}

/// Counts the rows of the quota-observation table.
pub fn quota_snapshot_stats(observations: &[QuotaContextRow]) -> (r: QuotaSnapshotStats)
    requires
        observations@.len() <= i64::MAX,
    ensures
        r.total == observations@.len(),
        r.read_ok_total == read_count(observations@, true),
        r.read_failed_total == read_count(observations@, false),
{
    let mut ok: i64 = 0;
    let mut failed: i64 = 0;
    let mut j: usize = 0;
    while j < observations.len()
        invariant
            j <= observations@.len() <= i64::MAX,
            ok == read_count(observations@.take(j as int), true),
            failed == read_count(observations@.take(j as int), false),
        decreases observations@.len() - j,
    {
        let ghost t = observations@.take(j + 1);
        assert(t.drop_last() =~= observations@.take(j as int));
        assert(t.last() == observations@[j as int]);
        proof {
            lemma_read_counts_add_up(observations@.take(j as int));
        }
        if observations[j].read_ok {
            ok = ok + 1;
        } else {
            failed = failed + 1;
        }
        j = j + 1;
    }
    assert(observations@.take(observations@.len() as int) =~= observations@);
    QuotaSnapshotStats { total: observations.len() as i64, read_ok_total: ok, read_failed_total: failed }
}

/// Where the dashboard listens and how it is reached.
pub struct ListenerSummary {
    pub dashboard_bind: String,
    pub access_pattern: String,
}

/// How the service is run and reached, and what to do next.
pub struct OpsPosture {
    pub service_mode: String,
    pub remote_access_mode: String,
    pub public_exposure: bool,
    pub ssh_tunnel_recommended: bool,
    pub listeners: ListenerSummary,
    pub recommendations: Vec<String>,
}

/// A headless API worker, reached through an SSH tunnel only: the dashboard binds to the
/// loopback address and nothing is exposed publicly.
pub fn ops_posture() -> (r: OpsPosture)
    ensures
        r.service_mode@ == "headless-api-worker"@,
        r.remote_access_mode@ == "ssh-tunnel-only"@,
        !r.public_exposure,
        r.ssh_tunnel_recommended,
        r.listeners.dashboard_bind@ == "127.0.0.1"@,
        r.listeners.access_pattern@ == "ssh -L 8088:127.0.0.1:<service-port> <host>"@,
        r.recommendations@.len() == 3,
        r.recommendations@[0]@ == "dashboard 只绑定 127.0.0.1，通过 SSH 隧道访问，不直接公网暴露"@,
        r.recommendations@[1]@ == "继续补 scheduler，把 worker / mailbox poll / tiering 串成常驻循环"@,
        r.recommendations@[2]@ == "冻结 GUI / 重控制台方向，保持轻量运维面板"@,
{
    let mut recommendations: Vec<String> = Vec::new();
    recommendations.push(String::from_str("dashboard 只绑定 127.0.0.1，通过 SSH 隧道访问，不直接公网暴露"));
    recommendations.push(String::from_str("继续补 scheduler，把 worker / mailbox poll / tiering 串成常驻循环"));
    recommendations.push(String::from_str("冻结 GUI / 重控制台方向，保持轻量运维面板"));
    OpsPosture {
        service_mode: String::from_str("headless-api-worker"),
        remote_access_mode: String::from_str("ssh-tunnel-only"),
        public_exposure: false,
        ssh_tunnel_recommended: true,
        listeners: ListenerSummary {
            dashboard_bind: String::from_str("127.0.0.1"),
            access_pattern: String::from_str("ssh -L 8088:127.0.0.1:<service-port> <host>"),
        },
        recommendations,
    }
}

/// How many of the statuses are `s`.
pub open spec fn occurrences(statuses: Seq<Seq<char>>, s: Seq<char>) -> nat
    decreases statuses.len(),
{
    if statuses.len() == 0 {
        0
    } else {
        occurrences(statuses.drop_last(), s) + if statuses.last() == s {
            1nat
        } else {
            0nat
        }
    }
}

proof fn lemma_occurrences_bounded(statuses: Seq<Seq<char>>, s: Seq<char>)
    ensures
        occurrences(statuses, s) <= statuses.len(),
    decreases statuses.len(),
{
    if statuses.len() > 0 {
        lemma_occurrences_bounded(statuses.drop_last(), s);
    }
}

/// `a` is listed before `b`: the larger count first, then the status in text order.
pub open spec fn listed_before(a: StatusCount, b: StatusCount) -> bool {
    a.count > b.count || (a.count == b.count && text_lt(a.status@, b.status@))
}

proof fn lemma_listed_before_transitive(a: StatusCount, b: StatusCount, c: StatusCount)
    requires
        listed_before(a, b),
        listed_before(b, c),
    ensures
        listed_before(a, c),
{
    if a.count == b.count && b.count == c.count {
        lemma_text_lt_transitive(a.status@, b.status@, c.status@);
    }
}

pub open spec fn strings(v: Seq<String>) -> Seq<Seq<char>> {
    v.map_values(|s: String| s@)
}

/// The count of each status among `statuses`: every status that occurs once, with how
/// often it occurs.
pub open spec fn counts_each(statuses: Seq<Seq<char>>, groups: Seq<StatusCount>) -> bool {
    &&& forall|k: int| 0 <= k < groups.len() ==> (#[trigger] groups[k]).count == occurrences(statuses, groups[k].status@)
        && groups[k].count > 0
    &&& forall|i: int| 0 <= i < statuses.len() ==> exists|k: int| 0 <= k < groups.len() && (#[trigger] groups[k]).status@ == #[trigger] statuses[i]
    &&& forall|k: int, l: int| 0 <= k < l < groups.len() ==> (#[trigger] groups[k]).status@ != (#[trigger] groups[l]).status@
}

/// Counts the statuses of a table's rows: each status with its count, the most frequent
/// first and then in text order.
pub fn status_counts(statuses: &[String]) -> (r: Vec<StatusCount>)
    requires
        statuses@.len() <= i64::MAX,
    ensures
        counts_each(strings(statuses@), r@),
        forall|k: int, l: int| 0 <= k < l < r@.len() ==> !listed_before(#[trigger] r@[l], #[trigger] r@[k]),
{
    let ghost all = strings(statuses@);
    let mut groups: Vec<StatusCount> = Vec::new();
    let mut i: usize = 0;
    while i < statuses.len()
        invariant
            i <= statuses@.len() <= i64::MAX,
            all == strings(statuses@),
            counts_each(all.take(i as int), groups@),
        decreases statuses@.len() - i,
    {
        let ghost pre = all.take(i as int);
        let ghost post = all.take(i + 1);
        assert(post.drop_last() =~= pre);
        assert(post.last() == statuses@[i as int]@);
        let s = &statuses[i];
        let mut j: usize = 0;
        while j < groups.len() && groups[j].status != *s
            invariant
                j <= groups@.len(),
                forall|q: int| 0 <= q < j ==> (#[trigger] groups@[q]).status@ != s@,
            decreases groups@.len() - j,
        {
            j = j + 1;
        }
        let ghost old_groups = groups@;
        proof {
            lemma_occurrences_bounded(pre, s@);
        }
        if j < groups.len() {
            let c = groups[j].count;
            let g = StatusCount { status: s.clone(), count: c + 1 };
            groups.set(j, g);
            proof {
                let n = groups@;
                assert forall|k: int| 0 <= k < n.len() implies (#[trigger] n[k]).count == occurrences(post, n[k].status@)
                    && n[k].count > 0 by {
                    if k != j {
                        assert(n[k] == old_groups[k]);
                        assert(old_groups[k].status@ != old_groups[j as int].status@);
                    }
                }
                assert forall|x: int| 0 <= x < post.len() implies exists|k: int| 0 <= k < n.len() && (#[trigger] n[k]).status@ == #[trigger] post[x] by {
                    if x < pre.len() {
                        assert(post[x] == pre[x]);
                        let k = choose|k: int| 0 <= k < old_groups.len() && (#[trigger] old_groups[k]).status@ == #[trigger] pre[x];
                        assert(n[k].status@ == old_groups[k].status@);
                    } else {
                        assert(n[j as int].status@ == post[x]);
                    }
                }
                assert forall|k: int, l: int| 0 <= k < l < n.len() implies (#[trigger] n[k]).status@ != (#[trigger] n[l]).status@ by {
                    assert(n[k].status@ == old_groups[k].status@);
                    assert(n[l].status@ == old_groups[l].status@);
                }
            }
        } else {
            groups.push(StatusCount { status: s.clone(), count: 1 });
            proof {
                let n = groups@;
                assert forall|k: int| 0 <= k < n.len() implies (#[trigger] n[k]).count == occurrences(post, n[k].status@)
                    && n[k].count > 0 by {
                    if k < old_groups.len() {
                        assert(n[k] == old_groups[k]);
                    } else {
                        assert forall|x: int| 0 <= x < pre.len() implies #[trigger] pre[x] != s@ by {
                            let q = choose|q: int| 0 <= q < old_groups.len() && (#[trigger] old_groups[q]).status@ == #[trigger] pre[x];
                        }
                        lemma_occurrences_absent(pre, s@);
                    }
                }
                assert forall|x: int| 0 <= x < post.len() implies exists|k: int| 0 <= k < n.len() && (#[trigger] n[k]).status@ == #[trigger] post[x] by {
                    if x < pre.len() {
                        assert(post[x] == pre[x]);
                        let k = choose|k: int| 0 <= k < old_groups.len() && (#[trigger] old_groups[k]).status@ == #[trigger] pre[x];
                        assert(n[k] == old_groups[k]);
                    } else {
                        assert(n[old_groups.len() as int].status@ == post[x]);
                    }
                }
                assert forall|k: int, l: int| 0 <= k < l < n.len() implies (#[trigger] n[k]).status@ != (#[trigger] n[l]).status@ by {
                    assert(n[k] == old_groups[k]);
                    if l < old_groups.len() {
                        assert(n[l] == old_groups[l]);
                    }
                }
            }
        }
        i = i + 1;
    }
    assert(all.take(statuses@.len() as int) =~= all);
    let mut order: Vec<usize> = Vec::new();
    let mut g: usize = 0;
    while g < groups.len()
        invariant
            g <= groups@.len(),
            forall|k: int| 0 <= k < order@.len() ==> (#[trigger] order@[k]) < g,
            forall|x: int| 0 <= x < g ==> #[trigger] order@.contains(x as usize),
            order@.len() == g,
            forall|k: int, l: int| 0 <= k < l < order@.len() ==> (#[trigger] order@[k]) != (#[trigger] order@[l]),
            forall|k: int, l: int|
                0 <= k < l < order@.len() ==> !listed_before(groups@[(#[trigger] order@[l]) as int], groups@[(#[trigger] order@[k]) as int]),
        decreases groups@.len() - g,
    {
        let mut p: usize = 0;
        while p < order.len() && !count_listed_before(&groups[g], &groups[order[p]])
            invariant
                p <= order@.len(),
                g < groups@.len(),
                forall|k: int| 0 <= k < order@.len() ==> (#[trigger] order@[k]) < g,
                forall|q: int| 0 <= q < p ==> !listed_before(groups@[g as int], groups@[(#[trigger] order@[q]) as int]),
            decreases order@.len() - p,
        {
            p = p + 1;
        }
        let ghost old_order = order@;
        proof {
            old_order.insert_ensures(p as int, g);
        }
        order.insert(p, g);
        proof {
            let n = order@;
            assert forall|k: int| 0 <= k < n.len() implies (#[trigger] n[k]) < g + 1 by {
                if k < p {
                    assert(n[k] == old_order[k]);
                } else if k > p {
                    assert(n[k] == old_order[k - 1]);
                }
            }
            assert forall|x: int| 0 <= x < g + 1 implies #[trigger] n.contains(x as usize) by {
                if x == g {
                    assert(n[p as int] == g);
                } else {
                    assert(old_order.contains(x as usize));
                    let k = choose|k: int| 0 <= k < old_order.len() && old_order[k] == x as usize;
                    if k < p {
                        assert(n[k] == old_order[k]);
                    } else {
                        assert(n[k + 1] == old_order[k]);
                    }
                }
            }
            assert forall|k: int, l: int| 0 <= k < l < n.len() implies (#[trigger] n[k]) != (#[trigger] n[l]) by {
                if k < p && l < p {
                    assert(n[k] == old_order[k] && n[l] == old_order[l]);
                } else if k < p && l == p {
                    assert(n[k] == old_order[k]);
                } else if k < p && l > p {
                    assert(n[k] == old_order[k] && n[l] == old_order[l - 1]);
                } else if k == p {
                    assert(n[l] == old_order[l - 1]);
                } else {
                    assert(n[k] == old_order[k - 1] && n[l] == old_order[l - 1]);
                }
            }
            assert forall|k: int, l: int| 0 <= k < l < n.len() implies !listed_before(groups@[(#[trigger] n[l]) as int], groups@[(#[trigger] n[k]) as int]) by {
                if k < p && l < p {
                    assert(n[k] == old_order[k] && n[l] == old_order[l]);
                } else if k < p && l == p {
                    assert(n[k] == old_order[k]);
                } else if k < p && l > p {
                    assert(n[k] == old_order[k] && n[l] == old_order[l - 1]);
                } else if k == p {
                    assert(n[l] == old_order[l - 1]);
                    let after = groups@[old_order[p as int] as int];
                    let x = groups@[n[l] as int];
                    assert(listed_before(groups@[g as int], after));
                    if l - 1 > p {
                        assert(!listed_before(x, after));
                    }
                    if listed_before(x, groups@[g as int]) {
                        lemma_listed_before_transitive(x, groups@[g as int], after);
                        if l - 1 == p {
                            lemma_text_lt_irreflexive(after.status@);
                        }
                    }
                } else {
                    assert(n[k] == old_order[k - 1] && n[l] == old_order[l - 1]);
                }
            }
        }
        g = g + 1;
    }
    let mut r: Vec<StatusCount> = Vec::new();
    let mut k: usize = 0;
    while k < order.len()
        invariant
            k <= order@.len() == groups@.len(),
            r@.len() == k,
            forall|q: int| 0 <= q < order@.len() ==> (#[trigger] order@[q]) < groups@.len(),
            forall|q: int| 0 <= q < k ==> (#[trigger] r@[q]).status@ == groups@[order@[q] as int].status@ && r@[q].count
                == groups@[order@[q] as int].count,
        decreases order@.len() - k,
    {
        let src = &groups[order[k]];
        r.push(StatusCount { status: src.status.clone(), count: src.count });
        k = k + 1;
    }
    proof {
        let gs = groups@;
        let o = order@;
        let rs = r@;
        assert forall|q: int| 0 <= q < rs.len() implies (#[trigger] rs[q]).count == occurrences(all, rs[q].status@) && rs[q].count > 0 by {
            assert(gs[o[q] as int].count == occurrences(all, gs[o[q] as int].status@));
        }
        assert forall|x: int| 0 <= x < all.len() implies exists|q: int| 0 <= q < rs.len() && (#[trigger] rs[q]).status@ == #[trigger] all[x] by {
            let gk = choose|gk: int| 0 <= gk < gs.len() && (#[trigger] gs[gk]).status@ == #[trigger] all[x];
            assert(o.contains(gk as usize));
            let q = choose|q: int| 0 <= q < o.len() && o[q] == gk as usize;
            assert(rs[q].status@ == gs[gk].status@);
        }
        assert forall|a: int, b: int| 0 <= a < b < rs.len() implies (#[trigger] rs[a]).status@ != (#[trigger] rs[b]).status@ by {
            assert(o[a] != o[b]);
            if o[a] < o[b] {
                assert(gs[o[a] as int].status@ != gs[o[b] as int].status@);
            } else {
                assert(gs[o[b] as int].status@ != gs[o[a] as int].status@);
            }
        }
        assert forall|a: int, b: int| 0 <= a < b < rs.len() implies !listed_before(#[trigger] rs[b], #[trigger] rs[a]) by {
            assert(!listed_before(gs[o[b] as int], gs[o[a] as int]));
        }
    }
    r
}

proof fn lemma_occurrences_absent(statuses: Seq<Seq<char>>, s: Seq<char>)
    requires
        forall|x: int| 0 <= x < statuses.len() ==> #[trigger] statuses[x] != s,
    ensures
        occurrences(statuses, s) == 0,
    decreases statuses.len(),
{
    if statuses.len() > 0 {
        let p = statuses.drop_last();
        assert forall|x: int| 0 <= x < p.len() implies #[trigger] p[x] != s by {
            assert(p[x] == statuses[x]);
        }
        lemma_occurrences_absent(p, s);
        assert(statuses[statuses.len() - 1] != s);
    }
}

fn count_listed_before(a: &StatusCount, b: &StatusCount) -> (r: bool)
    ensures
        r == listed_before(*a, *b),
{
    a.count > b.count || (a.count == b.count && text_less(a.status.as_str(), b.status.as_str()))
}

/// Counting one more status adds its count to its class, and to no other: "pending",
/// "running", "active", "verified", "automatable" and "completed" to the statuses under way
/// or done; "blocked", "retry_wait", "waiting_mailbox", "cooling", "frozen" and
/// "needs_optimization" to those held back; "dead_letter", "failed" and "read_failed" to
/// those failed.
pub proof fn lemma_status_counted_in_its_class(details: Seq<StatusCount>, e: StatusCount)
    ensures
        ({
            let t = e.status@;
            let under_way = t == "pending"@ || t == "running"@ || t == "active"@ || t == "verified"@
                || t == "automatable"@ || t == "completed"@;
            let held_back = t == "blocked"@ || t == "retry_wait"@ || t == "waiting_mailbox"@ || t == "cooling"@
                || t == "frozen"@ || t == "needs_optimization"@;
            let failed = t == "dead_letter"@ || t == "failed"@ || t == "read_failed"@;
            &&& class_sum(details.push(e), 1) == class_sum(details, 1) + if under_way { e.count as int } else { 0 }
            &&& class_sum(details.push(e), 2) == class_sum(details, 2) + if held_back { e.count as int } else { 0 }
            &&& class_sum(details.push(e), 3) == class_sum(details, 3) + if failed { e.count as int } else { 0 }
        }),
{
    assert(details.push(e).drop_last() =~= details);
    reveal_strlit("pending");
    reveal_strlit("running");
    reveal_strlit("active");
    reveal_strlit("verified");
    reveal_strlit("automatable");
    reveal_strlit("completed");
    reveal_strlit("blocked");
    reveal_strlit("retry_wait");
    reveal_strlit("waiting_mailbox");
    reveal_strlit("cooling");
    reveal_strlit("frozen");
    reveal_strlit("needs_optimization");
    reveal_strlit("dead_letter");
    reveal_strlit("failed");
    reveal_strlit("read_failed");
    assert("blocked"@[0] != "pending"@[0]);
    assert("blocked"@[0] != "running"@[0]);
    assert("blocked"@[0] != "active"@[0]);
    assert("blocked"@[0] != "verified"@[0]);
    assert("blocked"@[0] != "automatable"@[0]);
    assert("blocked"@[0] != "completed"@[0]);
    assert("retry_wait"@[0] != "pending"@[0]);
    assert("retry_wait"@[1] != "running"@[1]);
    assert("retry_wait"@[0] != "active"@[0]);
    assert("retry_wait"@[0] != "verified"@[0]);
    assert("retry_wait"@[0] != "automatable"@[0]);
    assert("retry_wait"@[0] != "completed"@[0]);
    assert("waiting_mailbox"@[0] != "pending"@[0]);
    assert("waiting_mailbox"@[0] != "running"@[0]);
    assert("waiting_mailbox"@[0] != "active"@[0]);
    assert("waiting_mailbox"@[0] != "verified"@[0]);
    assert("waiting_mailbox"@[0] != "automatable"@[0]);
    assert("waiting_mailbox"@[0] != "completed"@[0]);
    assert("cooling"@[0] != "pending"@[0]);
    assert("cooling"@[0] != "running"@[0]);
    assert("cooling"@[0] != "active"@[0]);
    assert("cooling"@[0] != "verified"@[0]);
    assert("cooling"@[0] != "automatable"@[0]);
    assert("cooling"@[2] != "completed"@[2]);
    assert("frozen"@[0] != "pending"@[0]);
    assert("frozen"@[0] != "running"@[0]);
    assert("frozen"@[0] != "active"@[0]);
    assert("frozen"@[0] != "verified"@[0]);
    assert("frozen"@[0] != "automatable"@[0]);
    assert("frozen"@[0] != "completed"@[0]);
    assert("needs_optimization"@[0] != "pending"@[0]);
    assert("needs_optimization"@[0] != "running"@[0]);
    assert("needs_optimization"@[0] != "active"@[0]);
    assert("needs_optimization"@[0] != "verified"@[0]);
    assert("needs_optimization"@[0] != "automatable"@[0]);
    assert("needs_optimization"@[0] != "completed"@[0]);
    assert("dead_letter"@[0] != "pending"@[0]);
    assert("dead_letter"@[0] != "running"@[0]);
    assert("dead_letter"@[0] != "active"@[0]);
    assert("dead_letter"@[0] != "verified"@[0]);
    assert("dead_letter"@[0] != "automatable"@[0]);
    assert("dead_letter"@[0] != "completed"@[0]);
    assert("dead_letter"@[0] != "blocked"@[0]);
    assert("dead_letter"@[0] != "retry_wait"@[0]);
    assert("dead_letter"@[0] != "waiting_mailbox"@[0]);
    assert("dead_letter"@[0] != "cooling"@[0]);
    assert("dead_letter"@[0] != "frozen"@[0]);
    assert("dead_letter"@[0] != "needs_optimization"@[0]);
    assert("failed"@[0] != "pending"@[0]);
    assert("failed"@[0] != "running"@[0]);
    assert("failed"@[0] != "active"@[0]);
    assert("failed"@[0] != "verified"@[0]);
    assert("failed"@[0] != "automatable"@[0]);
    assert("failed"@[0] != "completed"@[0]);
    assert("failed"@[0] != "blocked"@[0]);
    assert("failed"@[0] != "retry_wait"@[0]);
    assert("failed"@[0] != "waiting_mailbox"@[0]);
    assert("failed"@[0] != "cooling"@[0]);
    assert("failed"@[1] != "frozen"@[1]);
    assert("failed"@[0] != "needs_optimization"@[0]);
    assert("read_failed"@[0] != "pending"@[0]);
    assert("read_failed"@[1] != "running"@[1]);
    assert("read_failed"@[0] != "active"@[0]);
    assert("read_failed"@[0] != "verified"@[0]);
    assert("read_failed"@[0] != "automatable"@[0]);
    assert("read_failed"@[0] != "completed"@[0]);
    assert("read_failed"@[0] != "blocked"@[0]);
    assert("read_failed"@[2] != "retry_wait"@[2]);
    assert("read_failed"@[0] != "waiting_mailbox"@[0]);
    assert("read_failed"@[0] != "cooling"@[0]);
    assert("read_failed"@[0] != "frozen"@[0]);
    assert("read_failed"@[0] != "needs_optimization"@[0]);
    let t = e.status@;
    assert(class_sum(details.push(e), 1) == class_sum(details, 1) + if status_class(t) == 1 { e.count as int } else { 0 });
    assert(class_sum(details.push(e), 2) == class_sum(details, 2) + if status_class(t) == 2 { e.count as int } else { 0 });
    assert(class_sum(details.push(e), 3) == class_sum(details, 3) + if status_class(t) == 3 { e.count as int } else { 0 });
    if t == "blocked"@ || t == "retry_wait"@ || t == "waiting_mailbox"@ || t == "cooling"@ || t == "frozen"@ || t == "needs_optimization"@ {
        assert(status_class(t) == 2);
    }
    if t == "dead_letter"@ || t == "failed"@ || t == "read_failed"@ {
        assert(status_class(t) == 3);
    }
}

} // verus!
