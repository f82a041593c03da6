//! Running a request on a pool member's Codex session: the member routed to, the context
//! of its latest observation, the session bridge, and the completion built from its answer.
use vstd::prelude::*;
use crate::text;
use crate::json::JsonValue;
use crate::bridge;
use crate::clock;
use crate::admission::PoolMember;
use crate::pool::{QuotaContextRow, latest_observation, context_view, context_of};

verus! {

/// The pool member a request is routed to.
pub struct RoutedPoolMember {
    pub child_account_id: String,
    pub pool_status: String,
    pub admission_level: String,
    pub weight: i64,
}

impl From<PoolMember> for RoutedPoolMember {
    fn from(value: PoolMember) -> (r: Self) {
        RoutedPoolMember {
            child_account_id: value.child_account_id,
            pool_status: value.pool_status,
            admission_level: value.admission_level,
            weight: value.weight,
        }
    }
}

impl vstd::std_specs::convert::FromSpecImpl<PoolMember> for RoutedPoolMember {
    open spec fn obeys_from_spec() -> bool {
        true
    }

    open spec fn from_spec(value: PoolMember) -> Self {
        RoutedPoolMember {
            child_account_id: value.child_account_id,
            pool_status: value.pool_status,
            admission_level: value.admission_level,
            weight: value.weight,
        }
    }
}

/// Where pool members are kept (the store's path).
pub struct PoolMemberRepository {
    pub dsn: String,
}

impl PoolMemberRepository {
    pub fn new(dsn: String) -> (r: Self)
        ensures
            r.dsn@ == dsn@,
    {
        PoolMemberRepository { dsn }
    }
}

/// Picks the member that requests are routed to (the store's path).
pub struct PoolRouter {
    pub dsn: String,
}

impl PoolRouter {
    pub fn new(dsn: String) -> (r: Self)
        ensures
            r.dsn@ == dsn@,
    {
        PoolRouter { dsn }
    }
}

/// The source and page of an account's latest successful observation.
pub struct SourceExecutionContext {
    pub child_account_id: String,
    pub source_id: String,
    pub source_page: String,
    pub observed_at: String,
}

/// Where observation contexts are read from (the store's path).
pub struct SourceContextRepository {
    pub dsn: String,
}

impl SourceContextRepository {
    pub fn new(dsn: String) -> (r: Self)
        ensures
            r.dsn@ == dsn@,
    {
        SourceContextRepository { dsn }
    }

    /// The error for an account without a successful observation.
    pub fn missing_context_error(child_account_id: &str) -> (r: String)
        ensures
            r@ == "missing_source_context_for_child:"@ + child_account_id@,
    {
        text::concat2("missing_source_context_for_child:", child_account_id)
    }
}

/// The bridge to a Codex session, by mode; only `mock` is served.
pub struct CodexSessionBridge {
    pub mode: String,
}

/// What the bridge answers: in `mock` mode the source, page and input echoed, in any other
/// mode an error naming the mode.
pub open spec fn bridge_answer(mode: Seq<char>, source_id: Seq<char>, source_page: Seq<char>, input: Seq<char>) -> Result<Seq<char>, Seq<char>> {
    if mode == "mock"@ {
        Ok("mock-session-bridge source="@ + source_id + " page="@ + source_page + " input="@ + input)
    } else {
        Err("unsupported_codex_session_bridge_mode:"@ + mode)
    }
}

pub open spec fn same_result(r: Result<String, String>, s: Result<Seq<char>, Seq<char>>) -> bool {
    match (r, s) {
        (Ok(a), Ok(b)) => a@ == b,
        (Err(a), Err(b)) => a@ == b,
        _ => false,
    }
}

impl CodexSessionBridge {
    pub fn new(mode: String) -> (r: Self)
        ensures
            r.mode@ == mode@,
    {
        CodexSessionBridge { mode }
    }

    fn answer(&self, source_id: &str, source_page: &str, input: &str) -> (r: Result<String, String>)
        ensures
            same_result(r, bridge_answer(self.mode@, source_id@, source_page@, input@)),
    {
        if self.mode == String::from_str("mock") {
            let mut s = String::from_str("mock-session-bridge source=");
            s.append(source_id);
            s.append(" page=");
            s.append(source_page);
            s.append(" input=");
            s.append(input);
            Ok(s)
        } else {
            Err(text::concat2("unsupported_codex_session_bridge_mode:", self.mode.as_str()))
        }
    }

    pub fn run_chat(&self, source_id: &str, source_page: &str, model: &str, user_text: &str) -> (r:
        Result<String, String>)
        ensures
            same_result(r, bridge_answer(self.mode@, source_id@, source_page@, user_text@)),
    {
        self.answer(source_id, source_page, user_text)
    }

    pub fn run_response(&self, source_id: &str, source_page: &str, model: &str, input: &str) -> (r:
        Result<String, String>)
        ensures
            same_result(r, bridge_answer(self.mode@, source_id@, source_page@, input@)),
    {
        self.answer(source_id, source_page, input)
    }
}

/// Runs requests on pool members through the session bridge.
pub struct CodexExecutor {
    pub dsn: String,
    pub session_bridge_mode: String,
}

/// The text that a routed request answers with.
pub open spec fn routed_text(
    member: RoutedPoolMember,
    ctx: SourceExecutionContext,
    bridged: Seq<char>,
) -> Seq<char> {
    "codex routed via "@ + member.child_account_id@ + " ["@ + member.admission_level@ + "] source="@
        + ctx.source_id@ + " page="@ + ctx.source_page@ + ": "@ + bridged
}

/// The chat completion, or the bridge's error, for a request stamped with the given time.
pub open spec fn chat_outcome(
    r: Result<JsonValue, String>,
    mode: Seq<char>,
    member: RoutedPoolMember,
    ctx: SourceExecutionContext,
    model: Seq<char>,
    user_text: Seq<char>,
    now_millis: i64,
    now_secs: i64,
) -> bool {
    match (r, bridge_answer(mode, ctx.source_id@, ctx.source_page@, user_text)) {
        (Ok(v), Ok(b)) => v@ == bridge::chat_completion_view(
            "chatcmpl-codex-"@ + text::int_text(now_millis as int),
            now_secs,
            model,
            routed_text(member, ctx, b),
        ),
        (Err(e), Err(f)) => e@ == f,
        _ => false,
    }
}

/// The response, or the bridge's error, for a request stamped with the given time.
pub open spec fn response_outcome(
    r: Result<JsonValue, String>,
    mode: Seq<char>,
    member: RoutedPoolMember,
    ctx: SourceExecutionContext,
    model: Seq<char>,
    input: Seq<char>,
    now_millis: i64,
    now_secs: i64,
) -> bool {
    match (r, bridge_answer(mode, ctx.source_id@, ctx.source_page@, input)) {
        (Ok(v), Ok(b)) => v@ == bridge::response_view(
            "resp-codex-"@ + text::int_text(now_millis as int),
            now_secs,
            model,
            routed_text(member, ctx, b),
        ),
        (Err(e), Err(f)) => e@ == f,
        _ => false,
    }
}

impl CodexExecutor {
    pub fn new(dsn: String, session_bridge_mode: String) -> (r: Self)
        ensures
            r.dsn@ == dsn@,
            r.session_bridge_mode@ == session_bridge_mode@,
    {
        CodexExecutor { dsn, session_bridge_mode }
    }

    fn routed(member: &RoutedPoolMember, ctx: &SourceExecutionContext, bridged: &str) -> (r: String)
        ensures
            r@ == routed_text(*member, *ctx, bridged@),
    {
        let mut s = String::from_str("codex routed via ");
        s.append(member.child_account_id.as_str());
        s.append(" [");
        s.append(member.admission_level.as_str());
        s.append("] source=");
        s.append(ctx.source_id.as_str());
        s.append(" page=");
        s.append(ctx.source_page.as_str());
        s.append(": ");
        s.append(bridged);
        s
    }

    /// The chat completion for a member whose latest context is `ctx`, stamped with the given
    /// time, or the bridge's error.
    pub fn execute_chat_at(
        &self,
        member: &RoutedPoolMember,
        ctx: &SourceExecutionContext,
        model: &str,
        user_text: &str,
        now_millis: i64,
        now_secs: i64,
    ) -> (r: Result<JsonValue, String>)
        ensures
            chat_outcome(r, self.session_bridge_mode@, *member, *ctx, model@, user_text@, now_millis, now_secs),
    {
        let bridge = CodexSessionBridge::new(self.session_bridge_mode.clone());
        match bridge.run_chat(ctx.source_id.as_str(), ctx.source_page.as_str(), model, user_text) {
            Ok(bridged) => {
                let id = bridge::prefixed_number("chatcmpl-codex-", now_millis);
                let content = Self::routed(member, ctx, bridged.as_str());
                Ok(bridge::chat_completion(id.as_str(), now_secs, model, content.as_str()))
            },
            Err(e) => Err(e),
        }
    }

    /// The response for a member whose latest context is `ctx`, stamped with the given time,
    /// or the bridge's error.
    pub fn execute_response_at(
        &self,
        member: &RoutedPoolMember,
        ctx: &SourceExecutionContext,
        model: &str,
        input: &str,
        now_millis: i64,
        now_secs: i64,
    ) -> (r: Result<JsonValue, String>)
        ensures
            response_outcome(r, self.session_bridge_mode@, *member, *ctx, model@, input@, now_millis, now_secs),
    {
        let bridge = CodexSessionBridge::new(self.session_bridge_mode.clone());
        match bridge.run_response(ctx.source_id.as_str(), ctx.source_page.as_str(), model, input) {
            Ok(bridged) => {
                let id = bridge::prefixed_number("resp-codex-", now_millis);
                let content = Self::routed(member, ctx, bridged.as_str());
                Ok(bridge::response_output(id.as_str(), now_secs, model, content.as_str()))
            },
            Err(e) => Err(e),
        }
    }

    /// The chat completion for a member, from the context of its latest successful
    /// observation among the rows of the quota-observation table, stamped now; an error where
    /// the member has no such observation or the bridge refuses.
    pub fn execute_chat(
        &self,
        member: &RoutedPoolMember,
        observations: &[QuotaContextRow],
        model: &str,
        user_text: &str,
    ) -> (r: Result<JsonValue, String>)
        ensures
            match latest_observation(observations@, member.child_account_id@) {
                None => r matches Err(e) && e@ == "missing_source_context_for_child:"@ + member.child_account_id@,
                Some(b) => exists|ctx: SourceExecutionContext, millis: i64, secs: i64|
                    context_view(ctx) == context_of(b) && #[trigger] chat_outcome(
                        r,
                        self.session_bridge_mode@,
                        *member,
                        ctx,
                        model@,
                        user_text@,
                        millis,
                        secs,
                    ),
            },
    {
        let repo = SourceContextRepository::new(self.dsn.clone());
        let ctx = match repo.latest_for_child(observations, member.child_account_id.as_str()) {
            Ok(c) => c,
            Err(e) => {
                return Err(e);
            },
        };
        let (millis, secs) = clock::utc_now_millis_and_secs();
        self.execute_chat_at(member, &ctx, model, user_text, millis, secs)
    }

    /// The response for a member, from the context of its latest successful observation among
    /// the rows of the quota-observation table, stamped now; an error where the member has no
    /// such observation or the bridge refuses.
    pub fn execute_response(
        &self,
        member: &RoutedPoolMember,
        observations: &[QuotaContextRow],
        model: &str,
        input: &str,
    ) -> (r: Result<JsonValue, String>)
        ensures
            match latest_observation(observations@, member.child_account_id@) {
                None => r matches Err(e) && e@ == "missing_source_context_for_child:"@ + member.child_account_id@,
                Some(b) => exists|ctx: SourceExecutionContext, millis: i64, secs: i64|
                    context_view(ctx) == context_of(b) && #[trigger] response_outcome(
                        r,
                        self.session_bridge_mode@,
                        *member,
                        ctx,
                        model@,
                        input@,
                        millis,
                        secs,
                    ),
            },
    {
        let repo = SourceContextRepository::new(self.dsn.clone());
        let ctx = match repo.latest_for_child(observations, member.child_account_id.as_str()) {
            Ok(c) => c,
            Err(e) => {
                return Err(e);
            },
        };
        let (millis, secs) = clock::utc_now_millis_and_secs();
        self.execute_response_at(member, &ctx, model, input, millis, secs)
    }
}

} // verus!
