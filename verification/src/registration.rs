//! Registering a Codex child account: the keys it is filed under, the tasks it is queued,
//! and how a dispatched task settles.
use vstd::prelude::*;
use crate::text;
use crate::text::CharClass;
use crate::json;
use crate::json::{JsonValue, JsonView};
use crate::bridge;
use crate::quota::opt_view;

verus! {

/// `sanitize_key_fragment` on one char: ASCII letters and digits lowercased, anything else
/// a dash.
pub open spec fn key_char(c: char) -> char {
    if text::is_ascii_alphanumeric(c) {
        text::ascii_lower(c)
    } else {
        '-'
    }
}

/// A text as a key fragment: each char through `key_char`, then the dashes at either end
/// trimmed.
pub open spec fn key_fragment(s: Seq<char>) -> Seq<char> {
    text::trim_class(s.map_values(|c: char| key_char(c)), CharClass::Dash)
}

/// The chars a key fragment is made of.
pub open spec fn is_key_char(c: char) -> bool {
    ('a' <= c && c <= 'z') || text::is_ascii_digit(c) || c == '-'
}

fn key_char_of(c: char) -> (r: char)
    ensures
        r == key_char(c),
{
    if ('0' <= c && c <= '9') || ('a' <= c && c <= 'z') || ('A' <= c && c <= 'Z') {
        text::to_ascii_lower_char(c)
    } else {
        '-'
    }
}

/// The key fragment of a text: its ASCII letters and digits lowercased, everything else
/// turned into dashes, and the dashes at either end removed.
pub fn sanitize_key_fragment(value: &str) -> (r: String)
    ensures
        r@ == key_fragment(value@),
{
    let cs = text::chars_of(value);
    let mut mapped: Vec<char> = Vec::new();
    let mut i: usize = 0;
    while i < cs.len()
        invariant
            i <= cs@.len(),
            cs@ == value@,
            mapped@ == cs@.take(i as int).map_values(|c: char| key_char(c)),
        decreases cs@.len() - i,
    {
        mapped.push(key_char_of(cs[i]));
        assert(cs@.take(i + 1).map_values(|c: char| key_char(c)) =~= cs@.take(i as int).map_values(
            |c: char| key_char(c),
        ).push(key_char(cs@[i as int])));
        i = i + 1;
    }
    assert(cs@.take(cs@.len() as int) =~= cs@);
    let (a, b) = text::trim_range(&mapped, CharClass::Dash);
    text::string_of_range(&mapped, a, b)
}

proof fn lemma_key_char_is_key_char(c: char)
    ensures
        is_key_char(key_char(c)),
        is_key_char(c) ==> key_char(c) == c,
{
    if 'A' <= c && c <= 'Z' {
        assert(('a' <= key_char(c) && key_char(c) <= 'z'));
    }
}

proof fn lemma_skip_while_shape(s: Seq<char>, k: CharClass)
    ensures
        exists|n: int| 0 <= n <= s.len() && text::skip_while(s, k) == s.skip(n),
        text::skip_while(s, k).len() > 0 ==> !text::in_class(k, text::skip_while(s, k)[0]),
    decreases s.len(),
{
    if s.len() > 0 && text::in_class(k, s[0]) {
        lemma_skip_while_shape(s.drop_first(), k);
        let n = choose|n: int| 0 <= n <= s.drop_first().len() && text::skip_while(s.drop_first(), k) == s.drop_first().skip(n);
        assert(s.drop_first().skip(n) =~= s.skip(n + 1));
    } else {
        assert(s.skip(0) =~= s);
    }
}

proof fn lemma_trim_end_shape(s: Seq<char>, k: CharClass)
    ensures
        exists|n: int| 0 <= n <= s.len() && text::trim_end_while(s, k) == s.take(n),
        text::trim_end_while(s, k).len() > 0 ==> !text::in_class(k, text::trim_end_while(s, k).last()),
    decreases s.len(),
{
    if s.len() > 0 && text::in_class(k, s.last()) {
        lemma_trim_end_shape(s.drop_last(), k);
        let n = choose|n: int| 0 <= n <= s.drop_last().len() && text::trim_end_while(s.drop_last(), k) == s.drop_last().take(n);
        assert(s.drop_last().take(n) =~= s.take(n));
    } else {
        assert(s.take(s.len() as int) =~= s);
    }
}

/// A key fragment is made of lowercase ASCII letters, digits and dashes, and neither begins
/// nor ends with a dash.
pub proof fn lemma_key_fragment_shape(s: Seq<char>)
    ensures
        forall|i: int| 0 <= i < key_fragment(s).len() ==> is_key_char(#[trigger] key_fragment(s)[i]),
        key_fragment(s).len() > 0 ==> key_fragment(s)[0] != '-' && key_fragment(s).last() != '-',
{
    let m = s.map_values(|c: char| key_char(c));
    assert forall|i: int| 0 <= i < m.len() implies is_key_char(#[trigger] m[i]) by {
        lemma_key_char_is_key_char(s[i]);
    }
    let u = text::skip_while(m, CharClass::Dash);
    lemma_skip_while_shape(m, CharClass::Dash);
    let n = choose|n: int| 0 <= n <= m.len() && u == m.skip(n);
    let t = text::trim_end_while(u, CharClass::Dash);
    lemma_trim_end_shape(u, CharClass::Dash);
    let p = choose|p: int| 0 <= p <= u.len() && t == u.take(p);
    assert forall|i: int| 0 <= i < t.len() implies is_key_char(#[trigger] t[i]) by {
        assert(t[i] == m[n + i]);
    }
    if t.len() > 0 {
        assert(t[0] == u[0]);
    }
}

/// A key fragment is its own key fragment.
pub proof fn lemma_key_fragment_idempotent(s: Seq<char>)
    ensures
        key_fragment(key_fragment(s)) == key_fragment(s),
{
    let t = key_fragment(s);
    lemma_key_fragment_shape(s);
    let m = t.map_values(|c: char| key_char(c));
    assert forall|i: int| 0 <= i < t.len() implies #[trigger] m[i] == t[i] by {
        lemma_key_char_is_key_char(t[i]);
    }
    assert(m =~= t);
    if t.len() > 0 {
        assert(text::skip_while(t, CharClass::Dash) == t);
        assert(text::trim_end_while(t, CharClass::Dash) == t);
    }
}

/// A queued registration task as reported to the caller.
pub struct RegistrationTaskItem {
    pub id: String,
    pub task_type: String,
    pub status: String,
    pub next_run_at: Option<String>,
    pub max_attempts: i64,
    pub risk_score: i64,
}

/// A request to register a child account under a parent.
pub struct AutoRegisterCodexAccountRequest {
    pub parent_email: String,
    pub child_email: String,
    pub space_name: Option<String>,
    pub fingerprint_profile_id: Option<String>,
    pub proxy_key_label: Option<String>,
    pub allowed_models: Option<Vec<String>>,
}

/// The keys a registration is filed under and the tasks it queued.
pub struct AutoRegisterCodexAccountResponse {
    pub parent_account_id: String,
    pub child_account_id: String,
    pub invite_task_id: String,
    pub space_membership_id: String,
    pub proxy_key_id: String,
    pub proxy_key_plaintext: String,
    pub registration_tasks: Vec<RegistrationTaskItem>,
    pub status: String,
}

/// Everything a registration writes: the response, the settings it stores, and the payload
/// of each queued task (in the order of the tasks).
pub struct RegistrationPlan {
    pub response: AutoRegisterCodexAccountResponse,
    pub space_name: String,
    pub proxy_key_label: String,
    pub allowed_models_json: String,
    pub task_payloads: Vec<JsonValue>,
}

/// The six tasks of a registration, in the order they are queued.
pub open spec fn task_types() -> Seq<Seq<char>> {
    seq![
        "register-account"@,
        "verify-email"@,
        "verify-invite"@,
        "accept-invite"@,
        "collect-quota"@,
        "warmup-pool"@,
    ]
}

pub open spec fn parent_id_of(parent_email: Seq<char>) -> Seq<char> {
    "parent:"@ + key_fragment(parent_email)
}

pub open spec fn child_id_of(child_email: Seq<char>) -> Seq<char> {
    "child:"@ + key_fragment(child_email)
}

pub open spec fn invite_id_of(parent: Seq<char>, child: Seq<char>) -> Seq<char> {
    "invite:"@ + parent + ":"@ + child
}

/// The account-registration task is riskier and retried less than the others.
pub open spec fn task_risk(task_type: Seq<char>) -> i64 {
    if task_type == "register-account"@ {
        30
    } else {
        10
    }
}

pub open spec fn task_max_attempts(task_type: Seq<char>) -> i64 {
    if task_type == "register-account"@ {
        2
    } else {
        3
    }
}

pub open spec fn opt_str_json(v: Option<Seq<char>>) -> JsonView {
    match v {
        Some(s) => JsonView::Str(s),
        None => JsonView::Null,
    }
}

/// The payload of each task.
pub open spec fn task_payload(
    task_type: Seq<char>,
    req: AutoRegisterCodexAccountRequest,
    invite_id: Seq<char>,
) -> JsonView {
    if task_type == "register-account"@ {
        JsonView::Object(
            seq![
                ("child_email"@, JsonView::Str(req.child_email@)),
                ("fingerprint_profile_id"@, opt_str_json(opt_view(req.fingerprint_profile_id))),
            ],
        )
    } else if task_type == "verify-email"@ {
        JsonView::Object(
            seq![
                ("code_hint"@, JsonView::Str("mailbox-code"@)),
                ("provider"@, JsonView::Str("pending-email-api"@)),
                ("verification_target"@, JsonView::Str(req.child_email@)),
            ],
        )
    } else if task_type == "verify-invite"@ {
        JsonView::Object(
            seq![
                ("code_hint"@, JsonView::Str("invite-accept"@)),
                ("provider"@, JsonView::Str("pending-invite-api"@)),
                ("verification_target"@, JsonView::Str(invite_id)),
            ],
        )
    } else if task_type == "accept-invite"@ {
        JsonView::Object(
            seq![
                ("invite_task_id"@, JsonView::Str(invite_id)),
                ("parent_email"@, JsonView::Str(req.parent_email@)),
            ],
        )
    } else if task_type == "collect-quota"@ {
        JsonView::Object(
            seq![
                ("source_id"@, JsonView::Str("codex-app"@)),
                ("source_page"@, JsonView::Str("/codex"@)),
            ],
        )
    } else {
        JsonView::Object(seq![("target_pool_status"@, JsonView::Str("active"@))])
    }
}

/// The JSON text of a list of strings.
pub open spec fn string_list_json(v: Seq<Seq<char>>) -> Seq<char> {
    json::render(JsonView::Array(v.map_values(|s: Seq<char>| JsonView::Str(s))))
}

/// What registering gives: the keys derived from the two addresses, the six tasks queued
/// as pending at `now`, and the settings with their defaults.
pub open spec fn plan_matches(
    p: RegistrationPlan,
    req: AutoRegisterCodexAccountRequest,
    default_models: Seq<Seq<char>>,
    now: Seq<char>,
    now_millis: i64,
) -> bool {
    let parent = parent_id_of(req.parent_email@);
    let child = child_id_of(req.child_email@);
    let invite = invite_id_of(parent, child);
    let r = p.response;
    &&& r.parent_account_id@ == parent
    &&& r.child_account_id@ == child
    &&& r.invite_task_id@ == invite
    &&& r.space_membership_id@ == "membership:"@ + parent + ":"@ + child
    &&& r.proxy_key_id@ == "proxy-key:"@ + child
    &&& r.proxy_key_plaintext@ == "opapi_"@ + key_fragment(req.child_email@) + "_"@ + text::int_text(now_millis as int)
    &&& r.status@ == "pending_invite"@
    &&& r.registration_tasks@.len() == 6
    &&& p.task_payloads@.len() == 6
    &&& forall|i: int| 0 <= i < 6 ==> {
        let t = #[trigger] r.registration_tasks@[i];
        &&& t.id@ == "registration-task:"@ + child + ":"@ + task_types()[i]
        &&& t.task_type@ == task_types()[i]
        &&& t.status@ == "pending"@
        &&& opt_view(t.next_run_at) == Some(now)
        &&& t.max_attempts == task_max_attempts(task_types()[i])
        &&& t.risk_score == task_risk(task_types()[i])
        &&& p.task_payloads@[i]@ == task_payload(task_types()[i], req, invite)
    }
    &&& p.space_name@ == crate::adapter::or_default(opt_view(req.space_name), "Codex Auto Space"@)
    &&& p.proxy_key_label@ == crate::adapter::or_default(opt_view(req.proxy_key_label), "auto-register:"@ + child)
    &&& p.allowed_models_json@ == string_list_json(
        match req.allowed_models {
            Some(v) => crate::domain::views(v@),
            None => default_models,
        },
    )
}

fn join3(a: &str, b: &str, c: &str) -> (r: String)
    ensures
        r@ == a@ + b@ + c@,
{
    let mut s = String::from_str(a);
    s.append(b);
    s.append(c);
    s
}

fn opt_str_value(v: &Option<String>) -> (r: JsonValue)
    ensures
        r@ == opt_str_json(opt_view(*v)),
{
    match v {
        Some(s) => bridge::jstr(s.as_str()),
        None => JsonValue::Null,
    }
}

/// The JSON text of a list of strings.
pub fn string_list_to_json(v: &Vec<String>) -> (r: String)
    ensures
        r@ == string_list_json(crate::domain::views(v@)),
{
    let mut items: Vec<JsonValue> = Vec::new();
    let mut i: usize = 0;
    while i < v.len()
        invariant
            i <= v@.len(),
            items@.len() == i,
            forall|j: int| 0 <= j < i ==> #[trigger] json::view_of(items@[j]) == JsonView::Str(v@[j]@),
        decreases v@.len() - i,
    {
        items.push(bridge::jstr(v[i].as_str()));
        i = i + 1;
    }
    proof {
        json::lemma_view_items(items@);
    }
    let arr = bridge::jarray(items);
    assert(json::view_items(items@) =~= crate::domain::views(v@).map_values(|s: Seq<char>| JsonView::Str(s)));
    json::to_json_text(&arr)
}

fn task_item(child: &str, task_type: &str, now: &str) -> (r: RegistrationTaskItem)
    ensures
        r.id@ == "registration-task:"@ + child@ + ":"@ + task_type@,
        r.task_type@ == task_type@,
        r.status@ == "pending"@,
        opt_view(r.next_run_at) == Some(now@),
        r.max_attempts == task_max_attempts(task_type@),
        r.risk_score == task_risk(task_type@),
{
    let mut id = String::from_str("registration-task:");
    id.append(child);
    id.append(":");
    id.append(task_type);
    let is_account = String::from_str(task_type) == String::from_str("register-account");
    RegistrationTaskItem {
        id,
        task_type: String::from_str(task_type),
        status: String::from_str("pending"),
        next_run_at: Some(String::from_str(now)),
        max_attempts: if is_account { 2 } else { 3 },
        risk_score: if is_account { 30 } else { 10 },
    }
}

proof fn lemma_task_types_distinct()
    ensures
        task_types()[0] == "register-account"@,
        task_types()[1] != "register-account"@,
        task_types()[2] != "register-account"@,
        task_types()[3] != "register-account"@,
        task_types()[4] != "register-account"@,
        task_types()[5] != "register-account"@,
        task_types()[1] == "verify-email"@,
        task_types()[2] == "verify-invite"@,
        task_types()[2] != "verify-email"@,
        task_types()[3] == "accept-invite"@,
        task_types()[3] != "verify-email"@ && task_types()[3] != "verify-invite"@,
        task_types()[4] == "collect-quota"@,
        task_types()[4] != "verify-email"@ && task_types()[4] != "verify-invite"@ && task_types()[4] != "accept-invite"@,
        task_types()[5] == "warmup-pool"@,
        task_types()[5] != "verify-email"@ && task_types()[5] != "verify-invite"@ && task_types()[5] != "accept-invite"@ && task_types()[5] != "collect-quota"@,
{
    reveal_strlit("register-account");
    reveal_strlit("verify-email");
    reveal_strlit("verify-invite");
    reveal_strlit("accept-invite");
    reveal_strlit("collect-quota");
    reveal_strlit("warmup-pool");
    assert("verify-email"@.len() != "verify-invite"@.len());
    assert("accept-invite"@[0] != "verify-email"@[0]);
    assert("accept-invite"@[0] != "verify-invite"@[0]);
    assert("collect-quota"@[0] != "verify-email"@[0]);
    assert("collect-quota"@[0] != "verify-invite"@[0]);
    assert("collect-quota"@[0] != "accept-invite"@[0]);
    assert("warmup-pool"@[0] != "verify-email"@[0]);
    assert("warmup-pool"@[0] != "verify-invite"@[0]);
    assert("warmup-pool"@[0] != "accept-invite"@[0]);
    assert("warmup-pool"@[0] != "collect-quota"@[0]);
    assert("register-account"@[0] != "verify-email"@[0]);
    assert("register-account"@[0] != "verify-invite"@[0]);
    assert("register-account"@[0] != "accept-invite"@[0]);
    assert("register-account"@[0] != "collect-quota"@[0]);
    assert("register-account"@[0] != "warmup-pool"@[0]);
}

/// Plans a registration at time `now` (with `now_millis` for the proxy key): the keys the
/// parent and child are filed under, the six tasks queued, and the stored settings.
pub fn plan_registration(
    req: &AutoRegisterCodexAccountRequest,
    default_models: &Vec<String>,
    now: &str,
    now_millis: i64,
) -> (r: RegistrationPlan)
    ensures
        plan_matches(r, *req, crate::domain::views(default_models@), now@, now_millis),
{
    let parent_fragment = sanitize_key_fragment(req.parent_email.as_str());
    let child_fragment = sanitize_key_fragment(req.child_email.as_str());
    let parent = text::concat2("parent:", parent_fragment.as_str());
    let child = text::concat2("child:", child_fragment.as_str());
    let mut invite = join3("invite:", parent.as_str(), ":");
    invite.append(child.as_str());
    let mut membership = join3("membership:", parent.as_str(), ":");
    membership.append(child.as_str());
    let proxy_key_id = text::concat2("proxy-key:", child.as_str());
    let mut plaintext = join3("opapi_", child_fragment.as_str(), "_");
    let millis_text = text::i64_to_text(now_millis);
    plaintext.append(millis_text.as_str());

    let types: [&str; 6] = [
        "register-account",
        "verify-email",
        "verify-invite",
        "accept-invite",
        "collect-quota",
        "warmup-pool",
    ];
    assert(types@.map_values(|t: &str| t@) =~= task_types());
    let mut tasks: Vec<RegistrationTaskItem> = Vec::new();
    let mut i: usize = 0;
    while i < 6
        invariant
            i <= 6,
            types@.map_values(|t: &str| t@) == task_types(),
            tasks@.len() == i,
            forall|j: int| 0 <= j < i ==> {
                let t = #[trigger] tasks@[j];
                &&& t.id@ == "registration-task:"@ + child@ + ":"@ + task_types()[j]
                &&& t.task_type@ == task_types()[j]
                &&& t.status@ == "pending"@
                &&& opt_view(t.next_run_at) == Some(now@)
                &&& t.max_attempts == task_max_attempts(task_types()[j])
                &&& t.risk_score == task_risk(task_types()[j])
            },
        decreases 6 - i,
    {
        assert(types@[i as int]@ == task_types()[i as int]);
        tasks.push(task_item(child.as_str(), types[i], now));
        i = i + 1;
    }

    let ghost invite_v = invite@;
    proof {
        lemma_task_types_distinct();
    }
    let mut payloads: Vec<JsonValue> = Vec::new();
    payloads.push(bridge::object2(
        "child_email",
        bridge::jstr(req.child_email.as_str()),
        "fingerprint_profile_id",
        opt_str_value(&req.fingerprint_profile_id),
    ));
    payloads.push(bridge::object3(
        "code_hint",
        bridge::jstr("mailbox-code"),
        "provider",
        bridge::jstr("pending-email-api"),
        "verification_target",
        bridge::jstr(req.child_email.as_str()),
    ));
    payloads.push(bridge::object3(
        "code_hint",
        bridge::jstr("invite-accept"),
        "provider",
        bridge::jstr("pending-invite-api"),
        "verification_target",
        bridge::jstr(invite.as_str()),
    ));
    payloads.push(bridge::object2(
        "invite_task_id",
        bridge::jstr(invite.as_str()),
        "parent_email",
        bridge::jstr(req.parent_email.as_str()),
    ));
    payloads.push(bridge::object2(
        "source_id",
        bridge::jstr("codex-app"),
        "source_page",
        bridge::jstr("/codex"),
    ));
    payloads.push(bridge::object1("target_pool_status", bridge::jstr("active")));

    let space_name = match &req.space_name {
        Some(s) => s.clone(),
        None => String::from_str("Codex Auto Space"),
    };
    let label = match &req.proxy_key_label {
        Some(s) => s.clone(),
        None => text::concat2("auto-register:", child.as_str()),
    };
    let models_json = match &req.allowed_models {
        Some(v) => string_list_to_json(v),
        None => string_list_to_json(default_models),
    };
    RegistrationPlan {
        response: AutoRegisterCodexAccountResponse {
            parent_account_id: parent,
            child_account_id: child,
            invite_task_id: invite,
            space_membership_id: membership,
            proxy_key_id,
            proxy_key_plaintext: plaintext,
            registration_tasks: tasks,
            status: String::from_str("pending_invite"),
        },
        space_name,
        proxy_key_label: label,
        allowed_models_json: models_json,
        task_payloads: payloads,
    }
}

/// How a dispatched task came out.
#[derive(Clone, Copy, PartialEq, Eq, Structural)]
pub enum TaskOutcomeKind {
    Completed,
    RetryWait,
    Blocked,
}

/// How a dispatched task came out: the error that held it back and the risk score it now
/// carries, where it was held back.
pub struct TaskOutcome {
    pub kind: TaskOutcomeKind,
    pub error: Option<String>,
    pub risk_score: Option<i64>,
    pub retryable: Option<bool>,
}

/// What a task's runner found out before deciding: whether the fingerprint browser's API
/// key is set, how many email and invite verifications the account has, and the admission
/// level of its pool member, where it has one.
pub struct TaskFacts {
    pub api_key_configured: bool,
    pub email_verified: i64,
    pub invite_verified: i64,
    pub admission_level: Option<String>,
}

pub open spec fn outcome_view(o: TaskOutcome) -> (TaskOutcomeKind, Option<Seq<char>>, Option<i64>, Option<bool>) {
    (o.kind, opt_view(o.error), o.risk_score, o.retryable)
}

/// A member that is red, or no member at all, is not warmed up.
pub open spec fn red_or_missing(level: Option<Seq<char>>) -> bool {
    match level {
        Some(l) => l == "red"@,
        None => true,
    }
}

/// The outcome of running a task of the given type with the given risk score: the account
/// task waits to retry (risk +20) without the browser's API key; accepting the invite waits
/// (risk +5) until both verifications exist; warming up is blocked (risk 95) for a red
/// member or where there is none; everything else completes.
pub open spec fn task_outcome_of(task_type: Seq<char>, risk_score: i64, f: TaskFacts) -> (TaskOutcomeKind, Option<Seq<char>>, Option<i64>, Option<bool>) {
    if task_type == "register-account"@ && !f.api_key_configured {
        (TaskOutcomeKind::RetryWait, Some("fingerprint_browser_api_missing"@), Some((risk_score + 20) as i64), Some(true))
    } else if task_type == "accept-invite"@ && (f.email_verified == 0 || f.invite_verified == 0) {
        (TaskOutcomeKind::RetryWait, Some("verification_pending"@), Some((risk_score + 5) as i64), Some(true))
    } else if task_type == "warmup-pool"@ && red_or_missing(opt_view(f.admission_level)) {
        (TaskOutcomeKind::Blocked, Some("unsafe_to_warmup_red_pool_member"@), Some(95), Some(false))
    } else {
        (TaskOutcomeKind::Completed, None, None, None)
    }
}

/// Whether a member's level is red or there is no member.
pub fn level_is_red_or_missing(level: &Option<String>) -> (r: bool)
    ensures
        r == red_or_missing(opt_view(*level)),
{
    match level {
        Some(l) => *l == String::from_str("red"),
        None => true,
    }
}

pub fn task_outcome(task_type: &str, risk_score: i64, facts: &TaskFacts) -> (r: TaskOutcome)
    requires
        risk_score <= i64::MAX - 20,
    ensures
        outcome_view(r) == task_outcome_of(task_type@, risk_score, *facts),
{
    let t = String::from_str(task_type);
    if t == String::from_str("register-account") && !facts.api_key_configured {
        TaskOutcome {
            kind: TaskOutcomeKind::RetryWait,
            error: Some(String::from_str("fingerprint_browser_api_missing")),
            risk_score: Some(risk_score + 20),
            retryable: Some(true),
        }
    } else if t == String::from_str("accept-invite") && (facts.email_verified == 0
        || facts.invite_verified == 0) {
        TaskOutcome {
            kind: TaskOutcomeKind::RetryWait,
            error: Some(String::from_str("verification_pending")),
            risk_score: Some(risk_score + 5),
            retryable: Some(true),
        }
    } else if t == String::from_str("warmup-pool") && level_is_red_or_missing(&facts.admission_level) {
        TaskOutcome {
            kind: TaskOutcomeKind::Blocked,
            error: Some(String::from_str("unsafe_to_warmup_red_pool_member")),
            risk_score: Some(95),
            retryable: Some(false),
        }
    } else {
        TaskOutcome { kind: TaskOutcomeKind::Completed, error: None, risk_score: None, retryable: None }
    }
}

/// The status a task is left in after a run, whether it is dead-lettered, and, for a retry,
/// after how many seconds it runs again.
pub struct TaskSettlement {
    pub status: &'static str,
    pub dead_lettered: bool,
    pub retry_after_secs: Option<i64>,
}

/// A task that waits to retry is dead-lettered once this run brings its attempts to the
/// maximum, and otherwise runs again after 30 seconds per attempt; a blocked task stays
/// blocked; any other completes.
pub open spec fn settlement_of(kind: TaskOutcomeKind, attempt_count: i64, max_attempts: i64) -> (Seq<char>, bool, Option<i64>) {
    match kind {
        TaskOutcomeKind::RetryWait => {
            let dead = attempt_count + 1 >= max_attempts;
            (
                if dead { "dead_letter"@ } else { "retry_wait"@ },
                dead,
                Some((30 * (attempt_count + 1)) as i64),
            )
        },
        TaskOutcomeKind::Blocked => ("blocked"@, false, None),
        TaskOutcomeKind::Completed => ("completed"@, false, None),
    }
}

pub open spec fn settlement_view(s: TaskSettlement) -> (Seq<char>, bool, Option<i64>) {
    (s.status@, s.dead_lettered, s.retry_after_secs)
}

/// Settles a task run. `attempt_count` is the number of attempts before this run.
pub fn settle_task(kind: TaskOutcomeKind, attempt_count: i64, max_attempts: i64) -> (r: TaskSettlement)
    requires
        -307445734561825860 <= attempt_count + 1 <= 307445734561825860,
    ensures
        settlement_view(r) == settlement_of(kind, attempt_count, max_attempts),
{
    match kind {
        TaskOutcomeKind::RetryWait => {
            let dead = attempt_count + 1 >= max_attempts;
            TaskSettlement {
                status: if dead { "dead_letter" } else { "retry_wait" },
                dead_lettered: dead,
                retry_after_secs: Some(30 * (attempt_count + 1)),
            }
        },
        TaskOutcomeKind::Blocked => TaskSettlement { status: "blocked", dead_lettered: false, retry_after_secs: None },
        TaskOutcomeKind::Completed => TaskSettlement { status: "completed", dead_lettered: false, retry_after_secs: None },
    }
}

/// Only a task that waited to retry is ever dead-lettered, and then exactly when its
/// attempts reach the maximum; a retried task that is not dead-lettered still has attempts
/// left.
pub proof fn lemma_dead_letter_rule(kind: TaskOutcomeKind, attempt_count: i64, max_attempts: i64)
    ensures
        settlement_of(kind, attempt_count, max_attempts).1 <==> (kind == TaskOutcomeKind::RetryWait
            && attempt_count + 1 >= max_attempts),
        settlement_of(kind, attempt_count, max_attempts).1 ==> settlement_of(kind, attempt_count, max_attempts).0 == "dead_letter"@,
        (kind == TaskOutcomeKind::RetryWait && !settlement_of(kind, attempt_count, max_attempts).1)
            ==> attempt_count + 1 < max_attempts,
{
}

/// The worker's batch size: as asked, or 8.
pub fn worker_budget(max_tasks: Option<usize>) -> (r: usize)
    ensures
        r == match max_tasks {
            Some(n) => n,
            None => 8,
        },
{
    match max_tasks {
        Some(n) => n,
        None => 8,
    }
}

/// Accepting the invite waits, retryable, with `verification_pending` and the risk raised by
/// 5, as long as either verification is missing (email or invite not verified yet), and
/// completes once both are there.
pub proof fn lemma_accept_invite_waits_for_both_verifications(risk_score: i64, f: TaskFacts)
    requires
        risk_score <= i64::MAX - 20,
    ensures
        f.email_verified == 0 ==> task_outcome_of("accept-invite"@, risk_score, f) == (
            TaskOutcomeKind::RetryWait,
            Some("verification_pending"@),
            Some((risk_score + 5) as i64),
            Some(true),
        ),
        f.invite_verified == 0 ==> task_outcome_of("accept-invite"@, risk_score, f) == (
            TaskOutcomeKind::RetryWait,
            Some("verification_pending"@),
            Some((risk_score + 5) as i64),
            Some(true),
        ),
        f.email_verified != 0 && f.invite_verified != 0 ==> task_outcome_of("accept-invite"@, risk_score, f)
            == (TaskOutcomeKind::Completed, None::<Seq<char>>, None::<i64>, None::<bool>),
{
    lemma_task_types_distinct();
    reveal_strlit("warmup-pool");
    reveal_strlit("accept-invite");
    assert("accept-invite"@[0] != "warmup-pool"@[0]);
}

/// Each task of a registration carries what its runner acts on: the account registration the
/// child's address, the email verification the child's address as its target (the address
/// being registered), the invite verification the invite as its target, and accepting the
/// invite the invite and the parent's address.
pub proof fn lemma_task_payloads_name_their_targets(
    p: RegistrationPlan,
    req: AutoRegisterCodexAccountRequest,
    default_models: Seq<Seq<char>>,
    now: Seq<char>,
    now_millis: i64,
)
    requires
        plan_matches(p, req, default_models, now, now_millis),
    ensures
        p.response.registration_tasks@[0].task_type@ == "register-account"@,
        json::get_key(p.task_payloads@[0]@, "child_email"@) == Some(JsonView::Str(req.child_email@)),
        p.response.registration_tasks@[1].task_type@ == "verify-email"@,
        json::get_key(p.task_payloads@[1]@, "verification_target"@) == Some(JsonView::Str(req.child_email@)),
        json::get_key(p.task_payloads@[1]@, "provider"@) == Some(JsonView::Str("pending-email-api"@)),
        p.response.registration_tasks@[2].task_type@ == "verify-invite"@,
        json::get_key(p.task_payloads@[2]@, "verification_target"@) == Some(
            JsonView::Str(p.response.invite_task_id@),
        ),
        p.response.registration_tasks@[3].task_type@ == "accept-invite"@,
        json::get_key(p.task_payloads@[3]@, "invite_task_id"@) == Some(JsonView::Str(p.response.invite_task_id@)),
        json::get_key(p.task_payloads@[3]@, "parent_email"@) == Some(JsonView::Str(req.parent_email@)),
{
    lemma_task_types_distinct();
    reveal_strlit("child_email");
    reveal_strlit("fingerprint_profile_id");
    reveal_strlit("code_hint");
    reveal_strlit("provider");
    reveal_strlit("verification_target");
    reveal_strlit("invite_task_id");
    reveal_strlit("parent_email");
    assert("code_hint"@[0] != "verification_target"@[0]);
    assert("provider"@[0] != "verification_target"@[0]);
    assert("code_hint"@[0] != "provider"@[0]);
    assert("invite_task_id"@[0] != "parent_email"@[0]);
    let t0 = p.response.registration_tasks@[0];
    let t1 = p.response.registration_tasks@[1];
    let t2 = p.response.registration_tasks@[2];
    let t3 = p.response.registration_tasks@[3];
    let invite = invite_id_of(parent_id_of(req.parent_email@), child_id_of(req.child_email@));
    assert(p.task_payloads@[0]@ == task_payload(task_types()[0], req, invite));
    assert(p.task_payloads@[1]@ == task_payload(task_types()[1], req, invite));
    assert(p.task_payloads@[2]@ == task_payload(task_types()[2], req, invite));
    assert(p.task_payloads@[3]@ == task_payload(task_types()[3], req, invite));
    reveal_with_fuel(json::member, 4);
    let e1 = seq![
        ("code_hint"@, JsonView::Str("mailbox-code"@)),
        ("provider"@, JsonView::Str("pending-email-api"@)),
        ("verification_target"@, JsonView::Str(req.child_email@)),
    ];
    assert(e1.drop_first()[0].0 == "provider"@);
    assert(e1.drop_first().drop_first()[0].0 == "verification_target"@);
    let e2 = seq![
        ("code_hint"@, JsonView::Str("invite-accept"@)),
        ("provider"@, JsonView::Str("pending-invite-api"@)),
        ("verification_target"@, JsonView::Str(invite)),
    ];
    assert(e2.drop_first().drop_first()[0].0 == "verification_target"@);
}

} // verus!
