//! The registration worker's dispatch: which queued task runs next, what its runner reports,
//! what it leaves to be written, and the run of a batch.
use vstd::prelude::*;
use crate::text;
use crate::json::{self, JsonValue, JsonView};
use crate::bridge;
use crate::config::Config;
use crate::quota::{opt_view, CodexQuotaPageInput};
use crate::session::{CodexAppSessionInput, CodexQuotaCollector, CollectedObservation};
use crate::admission::{AdmissionDecision, decide_from_snapshot};
use crate::pool::{text_lt, text_less, lemma_text_lt_transitive, lemma_text_lt_irreflexive};
use crate::registration::{
    TaskFacts,
    TaskOutcome,
    TaskOutcomeKind,
    task_outcome,
    task_outcome_of,
    outcome_view,
    red_or_missing,
    level_is_red_or_missing,
};

verus! {

/// A row of the registration-task table.
pub struct RegistrationTaskRow {
    pub id: String,
    pub parent_account_id: String,
    pub child_account_id: String,
    pub task_type: String,
    pub payload_json: String,
    pub status: String,
    pub attempt_count: i64,
    pub max_attempts: i64,
    pub risk_score: i64,
    pub dead_lettered: bool,
    pub next_run_at: Option<String>,
    pub lease_until: Option<String>,
    pub queued_at: Option<String>,
}

/// The store's order on optional text: nothing first, then text in text order.
pub open spec fn opt_text_lt(a: Option<Seq<char>>, b: Option<Seq<char>>) -> bool {
    match (a, b) {
        (None, Some(_)) => true,
        (Some(x), Some(y)) => text_lt(x, y),
        _ => false,
    }
}

/// A time that is unset or not after `now`.
pub open spec fn not_after(t: Option<Seq<char>>, now: Seq<char>) -> bool {
    match t {
        None => true,
        Some(x) => !text_lt(now, x),
    }
}

/// A task that may run at `now`: pending or waiting to retry, not dead-lettered, with a risk
/// score of at most 70, due and not leased.
pub open spec fn is_due(r: RegistrationTaskRow, now: Seq<char>) -> bool {
    &&& (r.status@ == "pending"@ || r.status@ == "retry_wait"@)
    &&& !r.dead_lettered
    &&& r.risk_score <= 70
    &&& not_after(opt_view(r.next_run_at), now)
    &&& not_after(opt_view(r.lease_until), now)
}

/// `a` runs before `b`: the earlier run time, then the earlier queueing time, then the id.
pub open spec fn runs_before(a: RegistrationTaskRow, b: RegistrationTaskRow) -> bool {
    let (an, bn) = (opt_view(a.next_run_at), opt_view(b.next_run_at));
    let (aq, bq) = (opt_view(a.queued_at), opt_view(b.queued_at));
    opt_text_lt(an, bn) || (an == bn && (opt_text_lt(aq, bq) || (aq == bq && text_lt(a.id@, b.id@))))
}

proof fn lemma_opt_text_lt_transitive(a: Option<Seq<char>>, b: Option<Seq<char>>, c: Option<Seq<char>>)
    requires
        opt_text_lt(a, b),
        opt_text_lt(b, c),
    ensures
        opt_text_lt(a, c),
{
    if a is Some {
        lemma_text_lt_transitive(a->0, b->0, c->0);
    }
}

proof fn lemma_opt_text_lt_irreflexive(a: Option<Seq<char>>)
    ensures
        !opt_text_lt(a, a),
{
    if a is Some {
        lemma_text_lt_irreflexive(a->0);
    }
}

/// The run order is transitive.
pub proof fn lemma_runs_before_transitive(a: RegistrationTaskRow, b: RegistrationTaskRow, c: RegistrationTaskRow)
    requires
        runs_before(a, b),
        runs_before(b, c),
    ensures
        runs_before(a, c),
{
    let (an, bn, cn) = (opt_view(a.next_run_at), opt_view(b.next_run_at), opt_view(c.next_run_at));
    let (aq, bq, cq) = (opt_view(a.queued_at), opt_view(b.queued_at), opt_view(c.queued_at));
    if opt_text_lt(an, bn) && opt_text_lt(bn, cn) {
        lemma_opt_text_lt_transitive(an, bn, cn);
    } else if an == bn && bn == cn {
        if opt_text_lt(aq, bq) && opt_text_lt(bq, cq) {
            lemma_opt_text_lt_transitive(aq, bq, cq);
        } else if aq == bq && bq == cq {
            lemma_text_lt_transitive(a.id@, b.id@, c.id@);
        }
    }
}

/// The run order is irreflexive.
pub proof fn lemma_runs_before_irreflexive(a: RegistrationTaskRow)
    ensures
        !runs_before(a, a),
{
    lemma_opt_text_lt_irreflexive(opt_view(a.next_run_at));
    lemma_opt_text_lt_irreflexive(opt_view(a.queued_at));
    lemma_text_lt_irreflexive(a.id@);
}

/// The first due task in run order, if any.
pub open spec fn next_due(rows: Seq<RegistrationTaskRow>, now: Seq<char>) -> Option<RegistrationTaskRow>
    decreases rows.len(),
{
    if rows.len() == 0 {
        None
    } else {
        let rest = next_due(rows.drop_last(), now);
        let x = rows.last();
        if !is_due(x, now) {
            rest
        } else {
            match rest {
                None => Some(x),
                Some(b) => if runs_before(x, b) {
                    Some(x)
                } else {
                    Some(b)
                },
            }
        }
    }
}

/// The task that runs next is a due task of the table, and no due task runs before it;
/// there is none only where no task is due.
pub proof fn lemma_next_due_is_first(rows: Seq<RegistrationTaskRow>, now: Seq<char>)
    ensures
        next_due(rows, now) is None <==> (forall|k: int| 0 <= k < rows.len() ==> !is_due(#[trigger] rows[k], now)),
        next_due(rows, now) matches Some(b) ==> is_due(b, now) && rows.contains(b) && (forall|k: int|
            0 <= k < rows.len() && is_due(#[trigger] rows[k], now) ==> !runs_before(rows[k], b)),
    decreases rows.len(),
{
    if rows.len() > 0 {
        let p = rows.drop_last();
        lemma_next_due_is_first(p, now);
        let x = rows.last();
        assert(forall|k: int| 0 <= k < p.len() ==> #[trigger] p[k] == rows[k]);
        assert(rows[rows.len() - 1] == x);
        match next_due(p, now) {
            None => {
                if is_due(x, now) {
                    assert forall|k: int| 0 <= k < rows.len() && is_due(#[trigger] rows[k], now) implies !runs_before(rows[k], x) by {
                        if k < p.len() {
                            assert(!is_due(p[k], now));
                        } else {
                            lemma_runs_before_irreflexive(x);
                        }
                    }
                } else {
                    assert forall|k: int| 0 <= k < rows.len() implies !is_due(#[trigger] rows[k], now) by {
                        if k < p.len() {
                            assert(!is_due(p[k], now));
                        }
                    }
                }
            },
            Some(pb) => {
                assert(p.contains(pb));
                let j = choose|j: int| 0 <= j < p.len() && p[j] == pb;
                assert(rows[j] == pb);
                if is_due(x, now) && runs_before(x, pb) {
                    assert forall|k: int| 0 <= k < rows.len() && is_due(#[trigger] rows[k], now) implies !runs_before(rows[k], x) by {
                        if k < p.len() {
                            assert(!runs_before(p[k], pb));
                            if runs_before(rows[k], x) {
                                lemma_runs_before_transitive(rows[k], x, pb);
                            }
                        } else {
                            lemma_runs_before_irreflexive(x);
                        }
                    }
                } else {
                    assert forall|k: int| 0 <= k < rows.len() && is_due(#[trigger] rows[k], now) implies !runs_before(rows[k], pb) by {
                        if k < p.len() {
                            assert(!runs_before(p[k], pb));
                        }
                    }
                }
            },
        }
    }
}

fn opt_less(a: &Option<String>, b: &Option<String>) -> (r: bool)
    ensures
        r == opt_text_lt(opt_view(*a), opt_view(*b)),
{
    match (a, b) {
        (None, Some(_)) => true,
        (Some(x), Some(y)) => text_less(x.as_str(), y.as_str()),
        _ => false,
    }
}

fn opt_same(a: &Option<String>, b: &Option<String>) -> (r: bool)
    ensures
        r == (opt_view(*a) == opt_view(*b)),
{
    match (a, b) {
        (None, None) => true,
        (Some(x), Some(y)) => *x == *y,
        _ => false,
    }
}

fn not_after_now(t: &Option<String>, now: &str) -> (r: bool)
    ensures
        r == not_after(opt_view(*t), now@),
{
    match t {
        None => true,
        Some(x) => !text_less(now, x.as_str()),
    }
}

fn due(r: &RegistrationTaskRow, now: &str) -> (b: bool)
    ensures
        b == is_due(*r, now@),
{
    let waiting = r.status == String::from_str("pending") || r.status == String::from_str("retry_wait");
    waiting && !r.dead_lettered && r.risk_score <= 70 && not_after_now(&r.next_run_at, now)
        && not_after_now(&r.lease_until, now)
}

fn before(a: &RegistrationTaskRow, b: &RegistrationTaskRow) -> (r: bool)
    ensures
        r == runs_before(*a, *b),
{
    if opt_less(&a.next_run_at, &b.next_run_at) {
        return true;
    }
    if !opt_same(&a.next_run_at, &b.next_run_at) {
        return false;
    }
    if opt_less(&a.queued_at, &b.queued_at) {
        return true;
    }
    if !opt_same(&a.queued_at, &b.queued_at) {
        return false;
    }
    text_less(a.id.as_str(), b.id.as_str())
}

/// The index of the task that runs next at `now` among the rows of the registration-task
/// table: the due task with the earliest run time, then queueing time, then id.
pub fn next_due_task(rows: &[RegistrationTaskRow], now: &str) -> (r: Option<usize>)
    ensures
        match r {
            Some(i) => i < rows@.len() && next_due(rows@, now@) == Some(rows@[i as int]),
            None => next_due(rows@, now@) is None,
        },
{
    let mut best: Option<usize> = None;
    let mut i: usize = 0;
    while i < rows.len()
        invariant
            i <= rows@.len(),
            match best {
                None => next_due(rows@.take(i as int), now@) is None,
                Some(j) => j < i && next_due(rows@.take(i as int), now@) == Some(rows@[j as int]),
            },
        decreases rows@.len() - i,
    {
        assert(rows@.take(i + 1).drop_last() =~= rows@.take(i as int));
        assert(rows@.take(i + 1).last() == rows@[i as int]);
        if due(&rows[i], now) {
            match best {
                None => {
                    best = Some(i);
                },
                Some(j) => {
                    if before(&rows[i], &rows[j]) {
                        best = Some(i);
                    }
                },
            }
        }
        i = i + 1;
    }
    assert(rows@.take(rows@.len() as int) =~= rows@);
    best
}

/// `Value::get(key).and_then(Value::as_str).unwrap_or(default)` on a task's payload.
pub open spec fn text_field_or(payload: JsonView, key: Seq<char>, default: Seq<char>) -> Seq<char> {
    match json::then_text(json::get_key(payload, key)) {
        Some(t) => t,
        None => default,
    }
}

pub open spec fn str_or_null(v: Option<Seq<char>>) -> JsonView {
    match v {
        Some(s) => JsonView::Str(s),
        None => JsonView::Null,
    }
}

pub open spec fn provider_or_pending(config: Config) -> Seq<char> {
    match opt_view(config.fingerprint_browser_provider) {
        Some(p) => p,
        None => "pending-api"@,
    }
}

/// The report of a runner that waits to retry.
pub open spec fn retry_report(error: Seq<char>, risk_score: int) -> JsonView {
    JsonView::Object(
        seq![
            ("error"@, JsonView::Str(error)),
            ("retryable"@, JsonView::Bool(true)),
            ("risk_score"@, JsonView::Number(text::int_text(risk_score))),
            ("runner"@, JsonView::Str("fingerprint-browser"@)),
            ("status"@, JsonView::Str("retry_wait"@)),
        ],
    )
}

/// The pool-warming report for a red member.
pub open spec fn blocked_report() -> JsonView {
    JsonView::Object(
        seq![
            ("error"@, JsonView::Str("unsafe_to_warmup_red_pool_member"@)),
            ("retryable"@, JsonView::Bool(false)),
            ("risk_score"@, JsonView::Number(text::int_text(95))),
            ("runner"@, JsonView::Str("pool-warmer"@)),
            ("status"@, JsonView::Str("blocked"@)),
        ],
    )
}

/// The report of a verification runner.
pub open spec fn verification_report(kind: Seq<char>, provider: Seq<char>) -> JsonView {
    JsonView::Object(
        seq![
            ("kind"@, JsonView::Str(kind)),
            ("provider"@, JsonView::Str(provider)),
            ("runner"@, JsonView::Str("verification-engine"@)),
            ("status"@, JsonView::Str("completed"@)),
        ],
    )
}

/// The quota collector's report.
pub open spec fn collect_report(snapshot_id: Seq<char>, pool_status: Seq<char>, admission_level: Seq<char>) -> JsonView {
    JsonView::Object(
        seq![
            ("admission_level"@, JsonView::Str(admission_level)),
            ("pool_status"@, JsonView::Str(pool_status)),
            ("runner"@, JsonView::Str("quota-collector"@)),
            ("snapshot_id"@, JsonView::Str(snapshot_id)),
        ],
    )
}

/// What the runner of a task reports. An account registration waits (risk +20) without the
/// fingerprint browser's API key, else hands the payload to the browser; the two
/// verifications complete with the payload's provider (or their default); accepting the
/// invite waits (risk +5) until both verifications exist, else hands over to the browser;
/// quota collection reports the snapshot and the admission of the warm-up observation; pool
/// warming is blocked for a red member or where there is none, else it proceeds; anything
/// else is idle.
pub open spec fn task_report(
    task: RegistrationTaskRow,
    payload: JsonView,
    config: Config,
    facts: TaskFacts,
    warmup: Option<(Seq<char>, Seq<char>, Seq<char>)>,
) -> JsonView {
    let t = task.task_type@;
    let provider = JsonView::Str(provider_or_pending(config));
    let base_url = str_or_null(opt_view(config.fingerprint_browser_base_url));
    if t == "register-account"@ {
        if !facts.api_key_configured {
            retry_report("fingerprint_browser_api_missing"@, task.risk_score + 20)
        } else {
            JsonView::Object(
                seq![
                    ("action"@, JsonView::Str("register-account"@)),
                    ("api_key_configured"@, JsonView::Bool(true)),
                    ("base_url"@, base_url),
                    ("payload"@, payload),
                    ("provider"@, provider),
                    ("runner"@, JsonView::Str("fingerprint-browser"@)),
                    ("safety_mode"@, JsonView::Str("success-first"@)),
                ],
            )
        }
    } else if t == "verify-email"@ {
        verification_report("email"@, text_field_or(payload, "provider"@, "pending-email-api"@))
    } else if t == "verify-invite"@ {
        verification_report("invite"@, text_field_or(payload, "provider"@, "pending-invite-api"@))
    } else if t == "accept-invite"@ {
        if facts.email_verified == 0 || facts.invite_verified == 0 {
            retry_report("verification_pending"@, task.risk_score + 5)
        } else {
            JsonView::Object(
                seq![
                    ("action"@, JsonView::Str("accept-invite"@)),
                    ("api_key_configured"@, JsonView::Bool(facts.api_key_configured)),
                    ("base_url"@, base_url),
                    ("parent_account_id"@, JsonView::Str(task.parent_account_id@)),
                    ("provider"@, provider),
                    (
                        "requires"@,
                        JsonView::Array(seq![JsonView::Str("email-check"@), JsonView::Str("invite-confirmation"@)]),
                    ),
                    ("runner"@, JsonView::Str("fingerprint-browser"@)),
                ],
            )
        }
    } else if t == "collect-quota"@ {
        match warmup {
            Some(w) => collect_report(w.0, w.1, w.2),
            None => JsonView::Null,
        }
    } else if t == "warmup-pool"@ {
        if red_or_missing(opt_view(facts.admission_level)) {
            blocked_report()
        } else {
            JsonView::Object(
                seq![
                    ("runner"@, JsonView::Str("pool-warmer"@)),
                    ("safety_mode"@, JsonView::Str("success-first"@)),
                    ("target_pool_status"@, JsonView::Str("active"@)),
                ],
            )
        }
    } else {
        JsonView::Object(seq![("runner"@, JsonView::Str("noop"@)), ("status"@, JsonView::Str("idle"@))])
    }
}

/// What a task run leaves to be written, besides the task itself.
pub enum DispatchAction {
    /// Nothing.
    Nothing,
    /// The child account is registered, as of now.
    MarkRegistered,
    /// A verified verification task is recorded.
    RecordVerification { id: String, kind: String, provider: String, verification_target: String, code_hint: String },
    /// The invite is accepted and the membership joined and verified, as of now.
    AcceptInvite,
    /// The child account is warm and its pool status active.
    WarmPool,
}

/// The verification a task records: its id, kind, provider, target and code hint, each read
/// from the payload or at its default.
pub open spec fn verification_record(task: RegistrationTaskRow, payload: JsonView, kind: Seq<char>) -> (Seq<char>, Seq<char>, Seq<char>, Seq<char>, Seq<char>) {
    let email = kind == "email"@;
    (
        "verification:"@ + task.child_account_id@ + ":"@ + kind,
        kind,
        text_field_or(payload, "provider"@, if email { "pending-email-api"@ } else { "pending-invite-api"@ }),
        text_field_or(payload, "verification_target"@, "unknown"@),
        text_field_or(payload, "code_hint"@, if email { "mailbox-code"@ } else { "invite-accept"@ }),
    )
}

/// The action of a task run.
pub open spec fn action_matches(a: DispatchAction, task: RegistrationTaskRow, payload: JsonView, facts: TaskFacts) -> bool {
    let t = task.task_type@;
    if t == "register-account"@ && facts.api_key_configured {
        a is MarkRegistered
    } else if t == "verify-email"@ || t == "verify-invite"@ {
        let kind = if t == "verify-email"@ { "email"@ } else { "invite"@ };
        match a {
            DispatchAction::RecordVerification { id, kind: k, provider, verification_target, code_hint } => (
                id@,
                k@,
                provider@,
                verification_target@,
                code_hint@,
            ) == verification_record(task, payload, kind),
            _ => false,
        }
    } else if t == "accept-invite"@ && facts.email_verified != 0 && facts.invite_verified != 0 {
        a is AcceptInvite
    } else if t == "warmup-pool"@ && !red_or_missing(opt_view(facts.admission_level)) {
        a is WarmPool
    } else {
        a is Nothing
    }
}

/// What running a task comes to: the runner's report, how the run came out, and what is left
/// to be written.
pub struct TaskRun {
    pub result: JsonValue,
    pub outcome: TaskOutcome,
    pub action: DispatchAction,
}

/// The warm-up observation of a collect-quota task, and the admission it leads to.
pub struct WarmupCollection {
    pub observation: CollectedObservation,
    pub decision: AdmissionDecision,
}

pub open spec fn warmup_view(w: Option<&WarmupCollection>) -> Option<(Seq<char>, Seq<char>, Seq<char>)> {
    match w {
        Some(c) => Some((c.observation.snapshot.id@, c.decision.pool_member.pool_status@, c.decision.pool_member.admission_level@)),
        None => None,
    }
}

/// The page a collect-quota task reads: the account's Codex App page with its quota signals,
/// under the warm-up snapshot reference.
pub open spec fn warmup_page_matches(input: CodexQuotaPageInput, child_account_id: Seq<char>) -> bool {
    &&& input.child_account_id@ == child_account_id
    &&& input.source_id@ == "codex-app"@
    &&& input.source_page@ == "/codex"@
    &&& input.page_text@ == "5h 82% 7d 94% requests 8 tokens 2048 messages 6"@
    &&& input.page_html is None
    &&& opt_view(input.snapshot_ref) == Some("auto-register-warmup"@)
}

/// The warm-up page of an account and the session hints it is bootstrapped with.
pub fn warmup_page(child_account_id: &str) -> (r: (CodexQuotaPageInput, CodexAppSessionInput))
    ensures
        warmup_page_matches(r.0, child_account_id@),
        opt_view(r.1.session_namespace) == Some("auto-register:"@ + child_account_id@),
        opt_view(r.1.session_key_hint) == Some("bootstrap:"@ + child_account_id@),
{
    (
        CodexQuotaPageInput {
            child_account_id: String::from_str(child_account_id),
            source_id: String::from_str("codex-app"),
            source_page: String::from_str("/codex"),
            page_text: String::from_str("5h 82% 7d 94% requests 8 tokens 2048 messages 6"),
            page_html: None,
            snapshot_ref: Some(String::from_str("auto-register-warmup")),
        },
        CodexAppSessionInput {
            session_namespace: Some(text::concat2("auto-register:", child_account_id)),
            session_key_hint: Some(text::concat2("bootstrap:", child_account_id)),
        },
    )
}

/// The text of the warm-up page.
pub open spec fn warmup_text() -> Seq<char> {
    "5h 82% 7d 94% requests 8 tokens 2048 messages 6"@
}

/// Every window that reading the warm-up page cuts out is well formed.
pub open spec fn warmup_readable() -> bool {
    &&& crate::quota::quota_text_ok(warmup_text())
    &&& crate::session::session_value_ok(warmup_text(), None, crate::session::namespace_anchors())
    &&& crate::session::session_value_ok(warmup_text(), None, crate::session::key_hint_anchors())
}

/// Reads the account's warm-up page and grades it. The page is ASCII text, so reading it
/// cuts every window at a char and always succeeds.
pub fn warmup_collection(collector: &CodexQuotaCollector, child_account_id: &str) -> (r: Option<WarmupCollection>)
    ensures
        r is Some,
        warmup_readable(),
        r matches Some(w) ==> exists|input: CodexQuotaPageInput, session: CodexAppSessionInput|
            warmup_page_matches(input, child_account_id@) && opt_view(session.session_namespace) == Some(
                "auto-register:"@ + child_account_id@,
            ) && opt_view(session.session_key_hint) == Some("bootstrap:"@ + child_account_id@)
                && #[trigger] crate::session::observation_matches(w.observation, input, session),
        r matches Some(w) ==> exists|id: Seq<char>, now: Seq<char>, until: Seq<char>|
            #[trigger] crate::admission::decision_matches(w.decision, w.observation.snapshot, id, now, until),
{
    let (input, session) = warmup_page(child_account_id);
    proof {
        reveal_strlit("5h 82% 7d 94% requests 8 tokens 2048 messages 6");
        assert(crate::session::ascii_page(input));
    }
    match collector.observe(&input, &session) {
        Some(observation) => {
            let decision = decide_from_snapshot(&observation.snapshot);
            Some(WarmupCollection { observation, decision })
        },
        None => None,
    }
}

fn push_entry(es: &mut Vec<(String, JsonValue)>, k: &str, v: JsonValue)
    ensures
        json::view_members(final(es)@) == json::view_members(old(es)@).push((k@, v@)),
{
    let ghost before = es@;
    es.push((String::from_str(k), v));
    assert(es@.drop_last() =~= before);
}

fn text_field(payload: &JsonValue, key: &str, default: &str) -> (r: String)
    ensures
        r@ == text_field_or(payload@, key@, default@),
{
    match json::opt_str(json::json_get(payload, key)) {
        Some(t) => String::from_str(t),
        None => String::from_str(default),
    }
}

fn jstr_or_null(v: &Option<String>) -> (r: JsonValue)
    ensures
        r@ == str_or_null(opt_view(*v)),
{
    match v {
        Some(s) => bridge::jstr(s.as_str()),
        None => JsonValue::Null,
    }
}

fn retry(error: &str, risk_score: i64) -> (r: JsonValue)
    ensures
        r@ == retry_report(error@, risk_score as int),
{
    bridge::object5(
        "error",
        bridge::jstr(error),
        "retryable",
        JsonValue::Bool(true),
        "risk_score",
        bridge::jint(risk_score),
        "runner",
        bridge::jstr("fingerprint-browser"),
        "status",
        bridge::jstr("retry_wait"),
    )
}

/// Runs a due task: the runner's report, its outcome and the action it leaves. `payload` is
/// the task's payload as read (null where it does not parse), `facts` what the runner looked
/// up (the API key's presence is the settings'), and `warmup` the warm-up collection of a
/// collect-quota task.
pub fn run_task(
    task: &RegistrationTaskRow,
    payload: &JsonValue,
    config: &Config,
    facts: &TaskFacts,
    warmup: Option<&WarmupCollection>,
) -> (r: TaskRun)
    requires
        task.risk_score <= i64::MAX - 20,
        task.task_type@ == "collect-quota"@ ==> warmup is Some,
    ensures
        r.result@ == task_report(*task, payload@, *config, *facts, warmup_view(warmup)),
        outcome_view(r.outcome) == task_outcome_of(task.task_type@, task.risk_score, *facts),
        action_matches(r.action, *task, payload@, *facts),
{
    proof {
        reveal_strlit("register-account");
        reveal_strlit("verify-email");
        reveal_strlit("verify-invite");
        reveal_strlit("accept-invite");
        reveal_strlit("collect-quota");
        reveal_strlit("warmup-pool");
        reveal_strlit("email");
        reveal_strlit("invite");
        assert("register-account"@.len() == 16);
        assert("verify-email"@.len() == 12);
        assert("verify-invite"@.len() == 13);
        assert("accept-invite"@.len() == 13);
        assert("collect-quota"@.len() == 13);
        assert("warmup-pool"@.len() == 11);
        assert("verify-email"@ != "verify-invite"@ && "verify-email"@ != "accept-invite"@
            && "verify-email"@ != "collect-quota"@ && "verify-email"@ != "warmup-pool"@);
        assert("verify-invite"@ != "accept-invite"@ && "verify-invite"@ != "collect-quota"@
            && "verify-invite"@ != "warmup-pool"@) by {
            assert("verify-invite"@[0] != "accept-invite"@[0]);
            assert("verify-invite"@[0] != "collect-quota"@[0]);
        }
        assert("accept-invite"@ != "collect-quota"@ && "accept-invite"@ != "warmup-pool"@) by {
            assert("accept-invite"@[0] != "collect-quota"@[0]);
        }
        assert("collect-quota"@ != "warmup-pool"@);
        assert("email"@.len() == 5 && "invite"@.len() == 6);
    }
    let outcome = task_outcome(task.task_type.as_str(), task.risk_score, facts);
    let t = &task.task_type;
    let provider = match &config.fingerprint_browser_provider {
        Some(p) => p.clone(),
        None => String::from_str("pending-api"),
    };
    if *t == String::from_str("register-account") {
        if !facts.api_key_configured {
            let result = retry("fingerprint_browser_api_missing", task.risk_score + 20);
            return TaskRun { result, outcome, action: DispatchAction::Nothing };
        }
        let mut es: Vec<(String, JsonValue)> = Vec::new();
        assert(json::view_members(es@) =~= Seq::<(Seq<char>, JsonView)>::empty());
        push_entry(&mut es, "action", bridge::jstr("register-account"));
        push_entry(&mut es, "api_key_configured", JsonValue::Bool(true));
        push_entry(&mut es, "base_url", jstr_or_null(&config.fingerprint_browser_base_url));
        push_entry(&mut es, "payload", bridge::json_clone(payload));
        push_entry(&mut es, "provider", bridge::jstr(provider.as_str()));
        push_entry(&mut es, "runner", bridge::jstr("fingerprint-browser"));
        push_entry(&mut es, "safety_mode", bridge::jstr("success-first"));
        assert(json::view_members(es@) =~= seq![
            ("action"@, JsonView::Str("register-account"@)),
            ("api_key_configured"@, JsonView::Bool(true)),
            ("base_url"@, str_or_null(opt_view(config.fingerprint_browser_base_url))),
            ("payload"@, payload@),
            ("provider"@, JsonView::Str(provider_or_pending(*config))),
            ("runner"@, JsonView::Str("fingerprint-browser"@)),
            ("safety_mode"@, JsonView::Str("success-first"@)),
        ]);
        return TaskRun { result: bridge::jobject(es), outcome, action: DispatchAction::MarkRegistered };
    }
    if *t == String::from_str("verify-email") || *t == String::from_str("verify-invite") {
        let email = *t == String::from_str("verify-email");
        let kind = if email { "email" } else { "invite" };
        let p = text_field(payload, "provider", if email { "pending-email-api" } else { "pending-invite-api" });
        let target = text_field(payload, "verification_target", "unknown");
        let hint = text_field(payload, "code_hint", if email { "mailbox-code" } else { "invite-accept" });
        let mut id = String::from_str("verification:");
        id.append(task.child_account_id.as_str());
        id.append(":");
        id.append(kind);
        let result = bridge::object4(
            "kind",
            bridge::jstr(kind),
            "provider",
            bridge::jstr(p.as_str()),
            "runner",
            bridge::jstr("verification-engine"),
            "status",
            bridge::jstr("completed"),
        );
        let action = DispatchAction::RecordVerification {
            id,
            kind: String::from_str(kind),
            provider: p,
            verification_target: target,
            code_hint: hint,
        };
        return TaskRun { result, outcome, action };
    }
    if *t == String::from_str("accept-invite") {
        if facts.email_verified == 0 || facts.invite_verified == 0 {
            let result = retry("verification_pending", task.risk_score + 5);
            return TaskRun { result, outcome, action: DispatchAction::Nothing };
        }
        let mut needs: Vec<JsonValue> = Vec::new();
        needs.push(bridge::jstr("email-check"));
        needs.push(bridge::jstr("invite-confirmation"));
        proof {
            json::lemma_view_items(needs@);
        }
        let ghost items = needs@;
        let req = bridge::jarray(needs);
        assert(json::view_items(items) =~= seq![JsonView::Str("email-check"@), JsonView::Str("invite-confirmation"@)]);
        let mut es: Vec<(String, JsonValue)> = Vec::new();
        assert(json::view_members(es@) =~= Seq::<(Seq<char>, JsonView)>::empty());
        push_entry(&mut es, "action", bridge::jstr("accept-invite"));
        push_entry(&mut es, "api_key_configured", JsonValue::Bool(facts.api_key_configured));
        push_entry(&mut es, "base_url", jstr_or_null(&config.fingerprint_browser_base_url));
        push_entry(&mut es, "parent_account_id", bridge::jstr(task.parent_account_id.as_str()));
        push_entry(&mut es, "provider", bridge::jstr(provider.as_str()));
        push_entry(&mut es, "requires", req);
        push_entry(&mut es, "runner", bridge::jstr("fingerprint-browser"));
        assert(json::view_members(es@) =~= seq![
            ("action"@, JsonView::Str("accept-invite"@)),
            ("api_key_configured"@, JsonView::Bool(facts.api_key_configured)),
            ("base_url"@, str_or_null(opt_view(config.fingerprint_browser_base_url))),
            ("parent_account_id"@, JsonView::Str(task.parent_account_id@)),
            ("provider"@, JsonView::Str(provider_or_pending(*config))),
            (
                "requires"@,
                JsonView::Array(seq![JsonView::Str("email-check"@), JsonView::Str("invite-confirmation"@)]),
            ),
            ("runner"@, JsonView::Str("fingerprint-browser"@)),
        ]);
        return TaskRun { result: bridge::jobject(es), outcome, action: DispatchAction::AcceptInvite };
    }
    if *t == String::from_str("collect-quota") {
        let w = warmup.unwrap();
        let result = bridge::object4(
            "admission_level",
            bridge::jstr(w.decision.pool_member.admission_level.as_str()),
            "pool_status",
            bridge::jstr(w.decision.pool_member.pool_status.as_str()),
            "runner",
            bridge::jstr("quota-collector"),
            "snapshot_id",
            bridge::jstr(w.observation.snapshot.id.as_str()),
        );
        return TaskRun { result, outcome, action: DispatchAction::Nothing };
    }
    if *t == String::from_str("warmup-pool") {
        if level_is_red_or_missing(&facts.admission_level) {
            let result = bridge::object5(
                "error",
                bridge::jstr("unsafe_to_warmup_red_pool_member"),
                "retryable",
                JsonValue::Bool(false),
                "risk_score",
                bridge::jint(95),
                "runner",
                bridge::jstr("pool-warmer"),
                "status",
                bridge::jstr("blocked"),
            );
            return TaskRun { result, outcome, action: DispatchAction::Nothing };
        }
        let result = bridge::object3(
            "runner",
            bridge::jstr("pool-warmer"),
            "safety_mode",
            bridge::jstr("success-first"),
            "target_pool_status",
            bridge::jstr("active"),
        );
        return TaskRun { result, outcome, action: DispatchAction::WarmPool };
    }
    let result = bridge::object2("runner", bridge::jstr("noop"), "status", bridge::jstr("idle"));
    TaskRun { result, outcome, action: DispatchAction::Nothing }
}

/// What a dispatch answers: the task that ran, the status it was left in, and its runner's
/// report.
pub struct DispatchRegistrationTaskResponse {
    pub id: String,
    pub task_type: String,
    pub status: String,
    pub result: JsonValue,
}

/// The report of a runner that had nothing to do.
pub open spec fn idle_report() -> JsonView {
    JsonView::Object(seq![("runner"@, JsonView::Str("noop"@)), ("status"@, JsonView::Str("idle"@))])
}

/// A task of type `idle` is not run.
pub open spec fn is_idle_type(task_type: Seq<char>) -> bool {
    task_type == "idle"@
}

/// Whether a task is run (and marked running and settled): every task but one of type `idle`.
pub fn runs(task: &RegistrationTaskRow) -> (r: bool)
    ensures
        r == !is_idle_type(task.task_type@),
{
    task.task_type != String::from_str("idle")
}

/// The answer of a dispatch where no task was due.
pub fn idle_dispatch() -> (r: DispatchRegistrationTaskResponse)
    ensures
        r.id@ == "registration-task:none"@,
        r.task_type@ == "idle"@,
        r.status@ == "idle"@,
        r.result@ == idle_report(),
{
    DispatchRegistrationTaskResponse {
        id: String::from_str("registration-task:none"),
        task_type: String::from_str("idle"),
        status: String::from_str("idle"),
        result: bridge::object2("runner", bridge::jstr("noop"), "status", bridge::jstr("idle")),
    }
}

/// The answer of a dispatch that ran `task`: the status stored for it afterwards (`completed`
/// where none could be read), or `idle` for a task of type `idle`.
pub fn dispatch_response(task: &RegistrationTaskRow, result: JsonValue, stored_status: Option<String>) -> (r:
    DispatchRegistrationTaskResponse)
    ensures
        r.id@ == task.id@,
        r.task_type@ == task.task_type@,
        r.status@ == if is_idle_type(task.task_type@) {
            "idle"@
        } else {
            match opt_view(stored_status) {
                Some(s) => s,
                None => "completed"@,
            }
        },
        r.result == result,
{
    let status = if !runs(task) {
        String::from_str("idle")
    } else {
        match stored_status {
            Some(s) => s,
            None => String::from_str("completed"),
        }
    };
    DispatchRegistrationTaskResponse {
        id: task.id.clone(),
        task_type: task.task_type.clone(),
        status,
        result,
    }
}

/// What a run of the registration worker answers.
pub struct RunRegistrationWorkerResponse {
    pub dispatched: usize,
    pub results: Vec<DispatchRegistrationTaskResponse>,
}

/// A run of the registration worker: how many more dispatches it may make, and the results of
/// those made so far.
pub struct RegistrationWorker {
    pub remaining: usize,
    pub results: Vec<DispatchRegistrationTaskResponse>,
}

/// No result a run keeps is idle.
pub open spec fn none_idle(results: Seq<DispatchRegistrationTaskResponse>) -> bool {
    forall|i: int| 0 <= i < results.len() ==> (#[trigger] results[i]).status@ != "idle"@
}

impl RegistrationWorker {
    /// A run that may make as many dispatches as asked (8 where not asked).
    pub fn start(request: &crate::routes::codex::RegistrationWorkerRunRequest) -> (r: Self)
        ensures
            r.remaining == match request.max_tasks {
                Some(n) => n,
                None => 8,
            },
            r.results@.len() == 0,
    {
        RegistrationWorker { remaining: crate::registration::worker_budget(request.max_tasks), results: Vec::new() }
    }

    /// Whether the run makes another dispatch.
    pub fn wants_more(&self) -> (r: bool)
        ensures
            r == (self.remaining > 0),
    {
        self.remaining > 0
    }

    /// Takes the result of a dispatch: an idle one ends the run and is not kept; any other is
    /// kept and uses up one dispatch. Answers whether the run goes on.
    pub fn record(&mut self, item: DispatchRegistrationTaskResponse) -> (r: bool)
        requires
            old(self).remaining > 0,
        ensures
            item.status@ == "idle"@ ==> final(self).remaining == 0 && final(self).results@ == old(self).results@,
            item.status@ != "idle"@ ==> final(self).remaining == old(self).remaining - 1 && final(self).results@
                == old(self).results@.push(item),
            r == (final(self).remaining > 0),
            none_idle(old(self).results@) ==> none_idle(final(self).results@),
    {
        if item.status == String::from_str("idle") {
            self.remaining = 0;
            false
        } else {
            self.results.push(item);
            self.remaining = self.remaining - 1;
            self.remaining > 0
        }
    }

    /// The answer of the run: how many dispatches it kept, and their results in order.
    pub fn finish(self) -> (r: RunRegistrationWorkerResponse)
        ensures
            r.dispatched == self.results@.len(),
            r.results@ == self.results@,
    {
        RunRegistrationWorkerResponse { dispatched: self.results.len(), results: self.results }
    }
}

/// A task that has been dead-lettered, by its status or its flag.
pub open spec fn is_dead_letter(r: RegistrationTaskRow) -> bool {
    r.status@ == "dead_letter"@ || r.dead_lettered
}

/// `a` was queued before `b`: the earlier queueing time (an unset one first), then the id.
pub open spec fn queued_before(a: RegistrationTaskRow, b: RegistrationTaskRow) -> bool {
    let (aq, bq) = (opt_view(a.queued_at), opt_view(b.queued_at));
    opt_text_lt(aq, bq) || (aq == bq && text_lt(a.id@, b.id@))
}

proof fn lemma_queued_before_transitive(a: RegistrationTaskRow, b: RegistrationTaskRow, c: RegistrationTaskRow)
    requires
        queued_before(a, b),
        queued_before(b, c),
    ensures
        queued_before(a, c),
{
    let (aq, bq, cq) = (opt_view(a.queued_at), opt_view(b.queued_at), opt_view(c.queued_at));
    if opt_text_lt(aq, bq) && opt_text_lt(bq, cq) {
        lemma_opt_text_lt_transitive(aq, bq, cq);
    } else if aq == bq && bq == cq {
        lemma_text_lt_transitive(a.id@, b.id@, c.id@);
    }
}

/// The order in which the dead letters of the first `n` rows are put back: each dead-lettered
/// row once, no other row, none queued after one that follows it.
pub open spec fn dead_letter_order(rows: Seq<RegistrationTaskRow>, n: int, idx: Seq<usize>) -> bool {
    &&& forall|k: int| 0 <= k < idx.len() ==> (#[trigger] idx[k]) < n && is_dead_letter(rows[idx[k] as int])
    &&& forall|i: int| 0 <= i < n && is_dead_letter(#[trigger] rows[i]) ==> idx.contains(i as usize)
    &&& forall|k: int, l: int| 0 <= k < l < idx.len() ==> (#[trigger] idx[k]) != (#[trigger] idx[l])
    &&& forall|k: int, l: int|
        0 <= k < l < idx.len() ==> !queued_before(rows[(#[trigger] idx[l]) as int], rows[(#[trigger] idx[k]) as int])
}

/// Inserting a dead-lettered row's index before the first listed row that it is queued
/// before keeps the listing in queue order, and lists every dead-lettered row up to it.
#[verifier::spinoff_prover]
proof fn lemma_insert_dead_letter(rows: Seq<RegistrationTaskRow>, i: int, old_idx: Seq<usize>, p: int, n: Seq<usize>)
    requires
        0 <= i < rows.len(),
        i <= usize::MAX,
        is_dead_letter(rows[i]),
        dead_letter_order(rows, i, old_idx),
        0 <= p <= old_idx.len(),
        forall|q: int| 0 <= q < p ==> !queued_before(rows[i], rows[(#[trigger] old_idx[q]) as int]),
        p < old_idx.len() ==> queued_before(rows[i], rows[old_idx[p] as int]),
        n == old_idx.insert(p, i as usize),
    ensures
        dead_letter_order(rows, i + 1, n),
{
    old_idx.insert_ensures(p, i as usize);
    assert forall|k: int| 0 <= k < n.len() implies (#[trigger] n[k]) < i + 1 && is_dead_letter(rows[n[k] as int]) by {
        if k < p {
            assert(n[k] == old_idx[k]);
        } else if k > p {
            assert(n[k] == old_idx[k - 1]);
        }
    }
    assert forall|j: int| 0 <= j < i + 1 && is_dead_letter(#[trigger] rows[j]) implies n.contains(j as usize) by {
        if j == i {
            assert(n[p] == i as usize);
        } else {
            assert(old_idx.contains(j as usize));
            let k = choose|k: int| 0 <= k < old_idx.len() && old_idx[k] == j as usize;
            if k < p {
                assert(n[k] == old_idx[k]);
            } else {
                assert(n[k + 1] == old_idx[k]);
            }
        }
    }
    assert forall|k: int, l: int| 0 <= k < l < n.len() implies (#[trigger] n[k]) != (#[trigger] n[l]) by {
        if k < p && l < p {
            assert(n[k] == old_idx[k] && n[l] == old_idx[l]);
        } else if k < p && l == p {
            assert(n[k] == old_idx[k]);
        } else if k < p && l > p {
            assert(n[k] == old_idx[k] && n[l] == old_idx[l - 1]);
        } else if k == p {
            assert(n[l] == old_idx[l - 1]);
        } else {
            assert(n[k] == old_idx[k - 1] && n[l] == old_idx[l - 1]);
        }
    }
    assert forall|k: int, l: int| 0 <= k < l < n.len() implies !queued_before(rows[(#[trigger] n[l]) as int], rows[(#[trigger] n[k]) as int]) by {
        if k < p && l < p {
            assert(n[k] == old_idx[k] && n[l] == old_idx[l]);
        } else if k < p && l == p {
            assert(n[k] == old_idx[k]);
        } else if k < p && l > p {
            assert(n[k] == old_idx[k] && n[l] == old_idx[l - 1]);
        } else if k == p {
            assert(n[l] == old_idx[l - 1]);
            let after = rows[old_idx[p] as int];
            let x = rows[n[l] as int];
            if l - 1 > p {
                assert(!queued_before(x, after));
            }
            if queued_before(x, rows[i]) {
                lemma_queued_before_transitive(x, rows[i], after);
                if l - 1 == p {
                    lemma_opt_text_lt_irreflexive(opt_view(after.queued_at));
                    lemma_text_lt_irreflexive(after.id@);
                }
            }
        } else {
            assert(n[k] == old_idx[k - 1] && n[l] == old_idx[l - 1]);
        }
    }
}

/// The dead-lettered rows of the registration-task table, oldest in the queue first (then by
/// id), as indices into the rows.
pub fn dead_letter_indices(rows: &[RegistrationTaskRow]) -> (r: Vec<usize>)
    ensures
        dead_letter_order(rows@, rows@.len() as int, r@),
{
    let mut idx: Vec<usize> = Vec::new();
    let mut i: usize = 0;
    while i < rows.len()
        invariant
            i <= rows@.len(),
            dead_letter_order(rows@, i as int, idx@),
        decreases rows@.len() - i,
    {
        let r = &rows[i];
        let dead = r.status == String::from_str("dead_letter") || r.dead_lettered;
        if dead {
            let mut p: usize = 0;
            while p < idx.len() && !queue_order_before(r, &rows[idx[p]])
                invariant
                    p <= idx@.len(),
                    i < rows@.len(),
                    *r == rows@[i as int],
                    dead_letter_order(rows@, i as int, idx@),
                    forall|q: int| 0 <= q < p ==> !queued_before(rows@[i as int], rows@[(#[trigger] idx@[q]) as int]),
                decreases idx@.len() - p,
            {
                p = p + 1;
            }
            let ghost old_idx = idx@;
            proof {
                if p < old_idx.len() {
                    assert(queued_before(rows@[i as int], rows@[old_idx[p as int] as int]));
                }
            }
            idx.insert(p, i);
            proof {
                lemma_insert_dead_letter(rows@, i as int, old_idx, p as int, idx@);
            }
        }
        i = i + 1;
    }
    idx
}

fn queue_order_before(a: &RegistrationTaskRow, b: &RegistrationTaskRow) -> (r: bool)
    ensures
        r == queued_before(*a, *b),
{
    if opt_less(&a.queued_at, &b.queued_at) {
        return true;
    }
    if !opt_same(&a.queued_at, &b.queued_at) {
        return false;
    }
    text_less(a.id.as_str(), b.id.as_str())
}

/// The ids of the dead-lettered tasks, in the order they are put back.
pub fn dead_letter_ids(rows: &[RegistrationTaskRow]) -> (r: Vec<String>)
    ensures
        exists|idx: Seq<usize>|
            #[trigger] dead_letter_order(rows@, rows@.len() as int, idx) && r@.len() == idx.len() && forall|k: int|
                0 <= k < idx.len() ==> (#[trigger] r@[k])@ == rows@[idx[k] as int].id@,
{
    let idx = dead_letter_indices(rows);
    let mut ids: Vec<String> = Vec::new();
    let mut k: usize = 0;
    while k < idx.len()
        invariant
            k <= idx@.len(),
            ids@.len() == k,
            dead_letter_order(rows@, rows@.len() as int, idx@),
            forall|j: int| 0 <= j < k ==> (#[trigger] ids@[j])@ == rows@[idx@[j] as int].id@,
        decreases idx@.len() - k,
    {
        ids.push(rows[idx[k]].id.clone());
        k = k + 1;
    }
    ids
}

/// The outcome a task is settled with agrees with its runner's report: a task that waits to
/// retry reported `retry_wait` with the same error and risk, a blocked task reported
/// `blocked`, and an invite acceptance that completes reported no status at all (it went to
/// the browser) — so accepting the invite is settled as waiting exactly when its runner
/// reported that it waits.
pub proof fn lemma_outcome_agrees_with_report(
    task: RegistrationTaskRow,
    payload: JsonView,
    config: Config,
    facts: TaskFacts,
    warmup: Option<(Seq<char>, Seq<char>, Seq<char>)>,
)
    requires
        task.risk_score <= i64::MAX - 20,
    ensures
        task_outcome_of(task.task_type@, task.risk_score, facts).0 == TaskOutcomeKind::RetryWait ==> task_report(
            task,
            payload,
            config,
            facts,
            warmup,
        ) == retry_report(
            task_outcome_of(task.task_type@, task.risk_score, facts).1.unwrap(),
            task_outcome_of(task.task_type@, task.risk_score, facts).2.unwrap() as int,
        ),
        task_outcome_of(task.task_type@, task.risk_score, facts).0 == TaskOutcomeKind::Blocked ==> task_report(
            task,
            payload,
            config,
            facts,
            warmup,
        ) == blocked_report(),
        task.task_type@ == "accept-invite"@ && task_outcome_of(task.task_type@, task.risk_score, facts).0
            == TaskOutcomeKind::Completed ==> json::get_key(task_report(task, payload, config, facts, warmup), "status"@)
            is None,
        task.task_type@ == "accept-invite"@ ==> (task_outcome_of(task.task_type@, task.risk_score, facts).0
            == TaskOutcomeKind::RetryWait <==> json::get_key(task_report(task, payload, config, facts, warmup), "status"@)
            == Some(JsonView::Str("retry_wait"@))),
{
    reveal_strlit("register-account");
    reveal_strlit("verify-email");
    reveal_strlit("verify-invite");
    reveal_strlit("accept-invite");
    reveal_strlit("collect-quota");
    reveal_strlit("warmup-pool");
    assert("verify-email"@.len() != "verify-invite"@.len());
    assert("accept-invite"@[0] != "verify-email"@[0]);
    assert("accept-invite"@[0] != "verify-invite"@[0]);
    assert("collect-quota"@[0] != "accept-invite"@[0]);
    assert("warmup-pool"@[0] != "verify-email"@[0]);
    assert("warmup-pool"@[0] != "verify-invite"@[0]);
    assert("warmup-pool"@[0] != "accept-invite"@[0]);
    assert("warmup-pool"@[0] != "collect-quota"@[0]);
    assert("register-account"@[0] != "accept-invite"@[0]);
    assert("register-account"@[0] != "warmup-pool"@[0]);
    assert("warmup-pool"@[0] != "register-account"@[0]);
    reveal_strlit("status");
    reveal_strlit("action");
    reveal_strlit("api_key_configured");
    reveal_strlit("base_url");
    reveal_strlit("parent_account_id");
    reveal_strlit("provider");
    reveal_strlit("requires");
    reveal_strlit("runner");
    reveal_strlit("error");
    reveal_strlit("retryable");
    reveal_strlit("risk_score");
    reveal_strlit("retry_wait");
    reveal_with_fuel(json::member, 8);
    let t = task.task_type@;
    if t == "accept-invite"@ {
        let rr = seq![
            ("error"@, JsonView::Str("verification_pending"@)),
            ("retryable"@, JsonView::Bool(true)),
            ("risk_score"@, JsonView::Number(text::int_text(task.risk_score + 5))),
            ("runner"@, JsonView::Str("fingerprint-browser"@)),
            ("status"@, JsonView::Str("retry_wait"@)),
        ];
        assert(rr.drop_first()[0].0 == "retryable"@);
        assert(rr.drop_first().drop_first()[0].0 == "risk_score"@);
        assert(rr.drop_first().drop_first().drop_first()[0].0 == "runner"@);
        assert(rr.drop_first().drop_first().drop_first().drop_first()[0].0 == "status"@);
        assert("error"@[0] != "status"@[0]);
        assert("retryable"@[0] != "status"@[0]);
        assert("risk_score"@[0] != "status"@[0]);
        assert("runner"@[0] != "status"@[0]);
        assert("action"@[0] != "status"@[0]);
        assert("api_key_configured"@[0] != "status"@[0]);
        assert("base_url"@[0] != "status"@[0]);
        assert("parent_account_id"@[0] != "status"@[0]);
        assert("provider"@[0] != "status"@[0]);
        assert("requires"@[0] != "status"@[0]);
    }
}

} // verus!
