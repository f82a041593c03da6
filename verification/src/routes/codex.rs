//! The Codex routes: the quota sources and their overview, quota collection with the
//! admission it leads to, and the registration worker's bookkeeping.
use vstd::prelude::*;
use crate::json::JsonValue;
use crate::domain::{CodexQuotaSource, CodexQuotaSourceKind, default_codex_quota_sources, copy_opt};
use crate::quota::{opt_view, QuotaSnapshot, CodexQuotaPageInput, strings_view};
use crate::session::CodexAppSessionInput;
use crate::admission::{PoolMember, AdmissionDecision, decide_from_snapshot, decision_matches};
use crate::pool::{
    QuotaContextRow,
    text_lt,
    text_less,
    lemma_text_lt_transitive,
    lemma_text_lt_irreflexive,
    members_view,
    member_view,
    lookup,
    MemberView,
};
use crate::executor::PoolMemberRepository;
use crate::clock;

verus! {

/// The quota source list answer.
pub struct CodexQuotaSourceList {
    pub data: Vec<CodexQuotaSourceItem>,
}

/// A listed quota source, its kind by name.
pub struct CodexQuotaSourceItem {
    pub id: String,
    pub kind: String,
    pub enabled: bool,
    pub display_name: String,
    pub provider_id: String,
    pub base_url: Option<String>,
    pub observation_path: String,
    pub notes: Option<String>,
}

/// The name a source kind is written under (its `Debug` text).
pub open spec fn kind_name(k: CodexQuotaSourceKind) -> Seq<char> {
    match k {
        CodexQuotaSourceKind::CodexApp => "CodexApp"@,
        CodexQuotaSourceKind::CodexWeb => "CodexWeb"@,
    }
}

pub open spec fn source_item_view(i: CodexQuotaSourceItem) -> (Seq<char>, Seq<char>, bool, Seq<char>, Seq<char>, Option<Seq<char>>, Seq<char>, Option<Seq<char>>) {
    (i.id@, i.kind@, i.enabled, i.display_name@, i.provider_id@, opt_view(i.base_url), i.observation_path@, opt_view(i.notes))
}

/// How a source is listed.
pub open spec fn listed_source(s: CodexQuotaSource) -> (Seq<char>, Seq<char>, bool, Seq<char>, Seq<char>, Option<Seq<char>>, Seq<char>, Option<Seq<char>>) {
    (s.id@, kind_name(s.kind), s.enabled, s.display_name@, s.provider_id@, opt_view(s.base_url), s.observation_path@, opt_view(s.notes))
}

/// A source as it is listed.
pub fn map_source(source: CodexQuotaSource) -> (r: CodexQuotaSourceItem)
    ensures
        source_item_view(r) == listed_source(source),
{
    let kind = match source.kind {
        CodexQuotaSourceKind::CodexApp => String::from_str("CodexApp"),
        CodexQuotaSourceKind::CodexWeb => String::from_str("CodexWeb"),
    };
    CodexQuotaSourceItem {
        id: source.id,
        kind,
        enabled: source.enabled,
        display_name: source.display_name,
        provider_id: source.provider_id,
        base_url: source.base_url,
        observation_path: source.observation_path,
        notes: source.notes,
    }
}

/// The list of the known quota sources (the Codex App and the Codex Web), in order.
pub fn list_codex_quota_sources() -> (r: CodexQuotaSourceList)
    ensures
        r.data@.len() == 2,
        source_item_view(r.data@[0]) == (
            "codex-app"@,
            "CodexApp"@,
            true,
            "Codex App"@,
            "codex.app"@,
            Some("https://chatgpt.com"@),
            "/codex"@,
            Some("桌面 App / 内嵌 WebView 会话额度观测入口"@),
        ),
        source_item_view(r.data@[1]) == (
            "codex-web"@,
            "CodexWeb"@,
            true,
            "Codex Web"@,
            "codex.web"@,
            Some("https://chatgpt.com"@),
            "/codex"@,
            Some("浏览器网页会话额度观测入口"@),
        ),
{
    let mut sources = default_codex_quota_sources();
    let web = sources.pop().unwrap();
    let app = sources.pop().unwrap();
    let mut data: Vec<CodexQuotaSourceItem> = Vec::new();
    data.push(map_source(app));
    data.push(map_source(web));
    CodexQuotaSourceList { data }
}

/// How many sources are enabled.
pub open spec fn enabled_count(sources: Seq<CodexQuotaSource>) -> nat
    decreases sources.len(),
{
    if sources.len() == 0 {
        0
    } else {
        enabled_count(sources.drop_last()) + if sources.last().enabled {
            1nat
        } else {
            0nat
        }
    }
}

/// How many observations were read (`ok`) or failed (`!ok`).
pub open spec fn read_count(rows: Seq<QuotaContextRow>, ok: bool) -> nat
    decreases rows.len(),
{
    if rows.len() == 0 {
        0
    } else {
        read_count(rows.drop_last(), ok) + if rows.last().read_ok == ok {
            1nat
        } else {
            0nat
        }
    }
}

/// The latest time any observation was made at, if there was one.
pub open spec fn latest_time(rows: Seq<QuotaContextRow>) -> Option<Seq<char>>
    decreases rows.len(),
{
    if rows.len() == 0 {
        None
    } else {
        let t = rows.last().observed_at@;
        match latest_time(rows.drop_last()) {
            None => Some(t),
            Some(b) => if text_lt(b, t) {
                Some(t)
            } else {
                Some(b)
            },
        }
    }
}

/// Every observation was either read or failed.
pub proof fn lemma_read_counts_add_up(rows: Seq<QuotaContextRow>)
    ensures
        read_count(rows, true) + read_count(rows, false) == rows.len(),
    decreases rows.len(),
{
    if rows.len() > 0 {
        lemma_read_counts_add_up(rows.drop_last());
    }
}

/// The latest time is the time of some observation, and no observation is later.
pub proof fn lemma_latest_time_is_latest(rows: Seq<QuotaContextRow>)
    ensures
        latest_time(rows) is None <==> rows.len() == 0,
        latest_time(rows) matches Some(t) ==> (exists|k: int| 0 <= k < rows.len() && (#[trigger] rows[k]).observed_at@ == t)
            && forall|k: int| 0 <= k < rows.len() ==> !text_lt(t, (#[trigger] rows[k]).observed_at@),
    decreases rows.len(),
{
    if rows.len() > 0 {
        let p = rows.drop_last();
        lemma_latest_time_is_latest(p);
        let x = rows.last();
        assert(rows[rows.len() - 1] == x);
        assert(forall|k: int| 0 <= k < p.len() ==> #[trigger] p[k] == rows[k]);
        match latest_time(p) {
            None => {
                lemma_text_lt_irreflexive(x.observed_at@);
            },
            Some(b) => {
                let j = choose|j: int| 0 <= j < p.len() && (#[trigger] p[j]).observed_at@ == b;
                assert(rows[j] == p[j]);
                if text_lt(b, x.observed_at@) {
                    assert forall|k: int| 0 <= k < rows.len() implies !text_lt(x.observed_at@, (#[trigger] rows[k]).observed_at@) by {
                        if k < p.len() {
                            assert(!text_lt(b, p[k].observed_at@));
                            if text_lt(x.observed_at@, rows[k].observed_at@) {
                                lemma_text_lt_transitive(b, x.observed_at@, rows[k].observed_at@);
                            }
                        } else {
                            lemma_text_lt_irreflexive(x.observed_at@);
                        }
                    }
                } else {
                    assert forall|k: int| 0 <= k < rows.len() implies !text_lt(b, (#[trigger] rows[k]).observed_at@) by {
                        if k < p.len() {
                            assert(!text_lt(b, p[k].observed_at@));
                        }
                    }
                }
            },
        }
    }
}

/// The overview of the quota sources and the observations made.
pub struct CodexQuotaOverview {
    pub sources_total: usize,
    pub sources_enabled: usize,
    pub observations_total: i64,
    pub read_ok_total: i64,
    pub read_failed_total: i64,
    pub latest_observed_at: Option<String>,
}

/// The overview answer.
pub struct CodexQuotaOverviewResponse {
    pub data: CodexQuotaOverview,
}

/// The overview of the given sources and of the rows of the quota-observation table.
pub open spec fn overview_matches(o: CodexQuotaOverview, sources: Seq<CodexQuotaSource>, rows: Seq<QuotaContextRow>) -> bool {
    &&& o.sources_total == sources.len()
    &&& o.sources_enabled == enabled_count(sources)
    &&& o.observations_total == rows.len()
    &&& o.read_ok_total == read_count(rows, true)
    &&& o.read_failed_total == read_count(rows, false)
    &&& opt_view(o.latest_observed_at) == latest_time(rows)
}

/// Counts the sources, the enabled ones, the observations, those read and those failed, and
/// finds the latest observation time.
pub fn quota_overview(sources: &[CodexQuotaSource], observations: &[QuotaContextRow]) -> (r: CodexQuotaOverview)
    requires
        observations@.len() <= i64::MAX,
    ensures
        overview_matches(r, sources@, observations@),
{
    let mut enabled: usize = 0;
    let mut i: usize = 0;
    while i < sources.len()
        invariant
            i <= sources@.len(),
            enabled == enabled_count(sources@.take(i as int)),
            enabled <= i,
        decreases sources@.len() - i,
    {
        assert(sources@.take(i + 1).drop_last() =~= sources@.take(i as int));
        if sources[i].enabled {
            enabled = enabled + 1;
        }
        i = i + 1;
    }
    assert(sources@.take(sources@.len() as int) =~= sources@);
    let mut ok: i64 = 0;
    let mut failed: i64 = 0;
    let mut latest: Option<String> = None;
    let mut j: usize = 0;
    while j < observations.len()
        invariant
            j <= observations@.len() <= i64::MAX,
            ok == read_count(observations@.take(j as int), true),
            failed == read_count(observations@.take(j as int), false),
            opt_view(latest) == latest_time(observations@.take(j as int)),
        decreases observations@.len() - j,
    {
        let ghost t = observations@.take(j + 1);
        assert(t.drop_last() =~= observations@.take(j as int));
        assert(t.last() == observations@[j as int]);
        proof {
            lemma_read_counts_add_up(observations@.take(j as int));
        }
        let row = &observations[j];
        if row.read_ok {
            ok = ok + 1;
        } else {
            failed = failed + 1;
        }
        let replace = match &latest {
            None => true,
            Some(b) => text_less(b.as_str(), row.observed_at.as_str()),
        };
        if replace {
            latest = Some(row.observed_at.clone());
        }
        j = j + 1;
    }
    assert(observations@.take(observations@.len() as int) =~= observations@);
    CodexQuotaOverview {
        sources_total: sources.len(),
        sources_enabled: enabled,
        observations_total: observations.len() as i64,
        read_ok_total: ok,
        read_failed_total: failed,
        latest_observed_at: latest,
    }
}

/// The overview of the known quota sources and of the rows of the quota-observation table.
pub fn get_codex_quota_overview(observations: &[QuotaContextRow]) -> (r: CodexQuotaOverviewResponse)
    requires
        observations@.len() <= i64::MAX,
    ensures
        r.data.sources_total == 2,
        r.data.sources_enabled == 2,
        r.data.observations_total == observations@.len(),
        r.data.read_ok_total == read_count(observations@, true),
        r.data.read_failed_total == read_count(observations@, false),
        opt_view(r.data.latest_observed_at) == latest_time(observations@),
{
    let sources = default_codex_quota_sources();
    let data = quota_overview(sources.as_slice(), observations);
    proof {
        let s = sources@;
        assert(s.drop_last().drop_last() =~= Seq::<CodexQuotaSource>::empty());
        assert(s.drop_last().last() == s[0]);
        assert(s.last() == s[1]);
        assert(enabled_count(s.drop_last().drop_last()) == 0);
        assert(enabled_count(s.drop_last()) == 1);
        assert(enabled_count(s) == 2);
    }
    CodexQuotaOverviewResponse { data }
}

/// A request to read the quota off a Codex page.
pub struct CollectCodexQuotaRequest {
    pub child_account_id: String,
    pub source_id: String,
    pub source_page: String,
    pub page_text: String,
    pub page_html: Option<String>,
    pub snapshot_ref: Option<String>,
    pub session_namespace: Option<String>,
    pub session_key_hint: Option<String>,
}

impl CollectCodexQuotaRequest {
    /// The page the request carries and the session hints it names.
    pub fn into_parts(self) -> (r: (CodexQuotaPageInput, CodexAppSessionInput))
        ensures
            r.0.child_account_id@ == self.child_account_id@,
            r.0.source_id@ == self.source_id@,
            r.0.source_page@ == self.source_page@,
            r.0.page_text@ == self.page_text@,
            opt_view(r.0.page_html) == opt_view(self.page_html),
            opt_view(r.0.snapshot_ref) == opt_view(self.snapshot_ref),
            opt_view(r.1.session_namespace) == opt_view(self.session_namespace),
            opt_view(r.1.session_key_hint) == opt_view(self.session_key_hint),
    {
        (
            CodexQuotaPageInput {
                child_account_id: self.child_account_id,
                source_id: self.source_id,
                source_page: self.source_page,
                page_text: self.page_text,
                page_html: self.page_html,
                snapshot_ref: self.snapshot_ref,
            },
            CodexAppSessionInput {
                session_namespace: self.session_namespace,
                session_key_hint: self.session_key_hint,
            },
        )
    }
}

/// The admission an observation led to.
pub struct CodexAdmissionItem {
    pub pool_status: String,
    pub admission_level: String,
    pub weight: i64,
    pub reasons: Vec<String>,
}

/// The pool member kept after the admission was written.
pub struct CodexPersistedPoolMemberItem {
    pub child_account_id: String,
    pub pool_status: String,
    pub admission_level: String,
    pub weight: i64,
}

/// The answer to a quota collection.
pub struct CollectCodexQuotaResponse {
    pub data: QuotaSnapshot,
    pub admission: CodexAdmissionItem,
    pub persisted_pool_member: CodexPersistedPoolMemberItem,
}

/// The snapshot of a collection that could not be stored: for an unknown account, read at
/// `observed_at` from the Codex App page, with no signal, confidence 0 and the reason.
pub open spec fn failed_snapshot_matches(s: QuotaSnapshot, reason: Seq<char>, observed_at: Seq<char>) -> bool {
    &&& s.id@ == "quota-collect-failed"@
    &&& s.child_account_id@ == "unknown"@
    &&& s.observed_at@ == observed_at
    &&& s.quota_5h_percent is None
    &&& s.quota_7d_percent is None
    &&& s.request_count is None
    &&& s.token_count is None
    &&& s.message_count is None
    &&& opt_view(s.source_id) == Some("codex-app"@)
    &&& opt_view(s.source_page) == Some("/codex"@)
    &&& s.confidence_hundredths == Some(0u64)
    &&& !s.read_ok
    &&& opt_view(s.error_reason) == Some(reason)
}

/// The snapshot of a collection that could not be stored, stamped `observed_at`.
pub fn failed_snapshot_at(error_reason: String, observed_at: String) -> (r: QuotaSnapshot)
    ensures
        failed_snapshot_matches(r, error_reason@, observed_at@),
{
    QuotaSnapshot {
        id: String::from_str("quota-collect-failed"),
        child_account_id: String::from_str("unknown"),
        observed_at,
        quota_5h_percent: None,
        quota_7d_percent: None,
        request_count: None,
        token_count: None,
        message_count: None,
        source_id: Some(String::from_str("codex-app")),
        source_page: Some(String::from_str("/codex")),
        confidence_hundredths: Some(0),
        read_ok: false,
        error_reason: Some(error_reason),
    }
}

/// A collected snapshot and the admission decided for it.
pub struct AdmittedCollection {
    pub snapshot: QuotaSnapshot,
    pub decision: AdmissionDecision,
}

/// Grades what a collection gave. `collected` is the snapshot that was read and stored, or
/// why storing failed (the snapshot is then the failed one, stamped now). The decision's
/// member is what the pool-member table is then to be written with.
pub fn admit_collected(collected: Result<QuotaSnapshot, String>) -> (r: AdmittedCollection)
    ensures
        match collected {
            Ok(s) => r.snapshot == s,
            Err(e) => exists|secs: i64, nanos: u32| clock::valid_instant((secs, nanos))
                && #[trigger] failed_snapshot_matches(r.snapshot, e@, clock::text_of(secs as int, nanos as int)),
        },
        exists|id: Seq<char>, now: Seq<char>, until: Seq<char>|
            #[trigger] decision_matches(r.decision, r.snapshot, id, now, until),
        exists|id: Seq<char>, secs: i64, nanos: u32|
            clock::uuid_v4_text(id) && clock::valid_instant((secs, nanos)) && #[trigger] decision_matches(
                r.decision,
                r.snapshot,
                id,
                clock::text_of(secs as int, nanos as int),
                clock::text_after(secs as int, nanos as int, 1800),
            ),
{
    let snapshot = match collected {
        Ok(s) => s,
        Err(e) => {
            let at = clock::now_text();
            failed_snapshot_at(e, at)
        },
    };
    let decision = decide_from_snapshot(&snapshot);
    AdmittedCollection { snapshot, decision }
}

/// The member a collection reports as kept: the row for the decided member's account in
/// the pool-member table as read after the write, or the decided member itself where the
/// table could not be read or holds no row for the account.
pub open spec fn kept_member(decided: PoolMember, table: Option<Vec<PoolMember>>) -> MemberView {
    match table {
        Some(rows) => match lookup(members_view(rows@), decided.child_account_id@) {
            Some(m) => m,
            None => member_view(decided),
        },
        None => member_view(decided),
    }
}

/// Answers a quota collection: the snapshot, the admission decided for it, and the member
/// kept for the account, read from `table`, the pool-member table as read back after the
/// decided member was written to it (`None` where it could not be read).
pub fn collect_codex_quota(admitted: AdmittedCollection, table: Option<Vec<PoolMember>>) -> (r: CollectCodexQuotaResponse)
    ensures
        r.data == admitted.snapshot,
        r.admission.pool_status@ == admitted.decision.pool_member.pool_status@,
        r.admission.admission_level@ == admitted.decision.pool_member.admission_level@,
        r.admission.weight == admitted.decision.pool_member.weight,
        r.admission.reasons == admitted.decision.reasons,
        r.persisted_pool_member.child_account_id@ == kept_member(admitted.decision.pool_member, table).child_account_id,
        r.persisted_pool_member.pool_status@ == kept_member(admitted.decision.pool_member, table).pool_status,
        r.persisted_pool_member.admission_level@ == kept_member(admitted.decision.pool_member, table).admission_level,
        r.persisted_pool_member.weight == kept_member(admitted.decision.pool_member, table).weight,
{
    let AdmittedCollection { snapshot, decision } = admitted;
    let AdmissionDecision { pool_member: member, reasons } = decision;
    let persisted = match table {
        Some(rows) => {
            let repo = PoolMemberRepository::new(String::new());
            match repo.get_by_child_account_id(rows.as_slice(), member.child_account_id.as_str()) {
                Some(p) => p,
                None => crate::pool::copy_member(&member),
            }
        },
        None => crate::pool::copy_member(&member),
    };
    let admission = CodexAdmissionItem {
        pool_status: member.pool_status,
        admission_level: member.admission_level,
        weight: member.weight,
        reasons,
    };
    let item = CodexPersistedPoolMemberItem {
        child_account_id: persisted.child_account_id,
        pool_status: persisted.pool_status,
        admission_level: persisted.admission_level,
        weight: persisted.weight,
    };
    CollectCodexQuotaResponse { data: snapshot, admission, persisted_pool_member: item }
}

/// A request to run the registration worker.
pub struct RegistrationWorkerRunRequest {
    pub max_tasks: Option<usize>,
}

/// The dead-lettered tasks put back in the queue.
pub struct RecoverDeadLettersResponse {
    pub requeued: usize,
    pub task_ids: Vec<String>,
}

/// The answer to a recovery of the dead-lettered tasks with the given ids.
pub fn recover_dead_letters(task_ids: Vec<String>) -> (r: RecoverDeadLettersResponse)
    ensures
        r.requeued == task_ids@.len(),
        r.task_ids@ == task_ids@,
{
    RecoverDeadLettersResponse { requeued: task_ids.len(), task_ids }
}

} // verus!
