//! The Codex App session hints that a quota observation carries: read from the page or
//! given by the caller, and whether they are to be kept.
use vstd::prelude::*;
use crate::text;
use crate::text::CharClass;
use crate::scan;
use crate::quota;
use crate::quota::{CodexQuotaPageInput, QuotaSnapshot};
use vstd::utf8::is_ascii_chars;

verus! {

/// The session namespace and key hint of a Codex App session, where known.
pub struct CodexAppSessionInput {
    pub session_namespace: Option<String>,
    pub session_key_hint: Option<String>,
}

/// How far after an anchor a session value is looked for, in bytes.
pub const VALUE_WINDOW: usize = 160;

pub open spec fn value_window_ok(content: Seq<char>, anchor: Seq<char>) -> bool {
    scan::window_ok(content, anchor, false, VALUE_WINDOW as int)
}

/// The value after the first case-insensitive occurrence of `anchor`: past whitespace,
/// `:`, `=`, quotes and `>`, the run of chars up to whitespace, `<`, a quote, `,` or `;`.
pub open spec fn value_after_anchor(content: Seq<char>, anchor: Seq<char>) -> Option<Seq<char>> {
    match scan::window_text(content, anchor, false, VALUE_WINDOW as int) {
        None => None,
        Some(w) => {
            let v = text::take_while(text::skip_while(w, CharClass::ValueLead), CharClass::ValueBody);
            if v.len() == 0 {
                None
            } else {
                Some(v)
            }
        },
    }
}

pub open spec fn html_value(html: Option<Seq<char>>, anchor: Seq<char>) -> Option<Seq<char>> {
    match html {
        Some(h) => value_after_anchor(h, anchor),
        None => None,
    }
}

/// The first value found, trying each anchor in turn on the text and then on the HTML.
pub open spec fn session_value(text: Seq<char>, html: Option<Seq<char>>, anchors: Seq<Seq<char>>) -> Option<Seq<char>>
    decreases anchors.len(),
{
    if anchors.len() == 0 {
        None
    } else {
        match value_after_anchor(text, anchors[0]) {
            Some(v) => Some(v),
            None => match html_value(html, anchors[0]) {
                Some(v) => Some(v),
                None => session_value(text, html, anchors.drop_first()),
            },
        }
    }
}

/// An ASCII text, short enough for a value window to end within `usize`.
pub open spec fn ascii_value_fits(content: Seq<char>) -> bool {
    is_ascii_chars(content) && content.len() + VALUE_WINDOW <= usize::MAX
}

/// The text and, where there is one, the HTML are ASCII and short enough for a value window.
pub open spec fn ascii_sources_fit(text: Seq<char>, html: Option<Seq<char>>) -> bool {
    &&& ascii_value_fits(text)
    &&& html matches Some(h) ==> ascii_value_fits(h)
}

/// Every window that the search for a session value cuts out is well formed.
pub open spec fn session_value_ok(text: Seq<char>, html: Option<Seq<char>>, anchors: Seq<Seq<char>>) -> bool
    decreases anchors.len(),
{
    anchors.len() == 0 || {
        &&& value_window_ok(text, anchors[0])
        &&& value_after_anchor(text, anchors[0]) is None ==> {
            &&& (html matches Some(h) ==> value_window_ok(h, anchors[0]))
            &&& html_value(html, anchors[0]) is None ==> session_value_ok(
                text,
                html,
                anchors.drop_first(),
            )
        }
    }
}

fn scan_value_after_anchor(content: &str, anchor: &str) -> (r: Option<Option<String>>)
    ensures
        r is Some <==> value_window_ok(content@, anchor@),
        r matches Some(v) ==> quota::opt_view(v) == value_after_anchor(content@, anchor@),
        ascii_value_fits(content@) && is_ascii_chars(anchor@) ==> r is Some,
{
    match scan::anchored_window(content, anchor, false, VALUE_WINDOW) {
        None => None,
        Some(None) => Some(None),
        Some(Some(w)) => {
            let cs = text::chars_of(w);
            let a = text::run_len(&cs, 0, CharClass::ValueLead);
            let n = text::run_len(&cs, a, CharClass::ValueBody);
            assert(cs@.skip(0) =~= cs@);
            if n == 0 {
                Some(None)
            } else {
                Some(Some(text::string_of_range(&cs, a, a + n)))
            }
        },
    }
}

/// The value after the first case-insensitive occurrence of `anchor` in `content`.
pub fn extract_value_after_anchor(content: &str, anchor: &str) -> (r: Option<String>)
    requires
        value_window_ok(content@, anchor@),
    ensures
        quota::opt_view(r) == value_after_anchor(content@, anchor@),
{
    scan_value_after_anchor(content, anchor).unwrap()
}

pub open spec fn str_opt_view(o: Option<&str>) -> Option<Seq<char>> {
    match o {
        Some(s) => Some(s@),
        None => None,
    }
}

fn scan_session_value(text: &str, html: Option<&str>, anchors: &[&str]) -> (r: Option<Option<String>>)
    ensures
        r is Some <==> session_value_ok(text@, str_opt_view(html), quota::anchors_view(anchors@)),
        r matches Some(v) ==> quota::opt_view(v) == session_value(
            text@,
            str_opt_view(html),
            quota::anchors_view(anchors@),
        ),
        ascii_sources_fit(text@, str_opt_view(html)) && quota::ascii_anchors(quota::anchors_view(anchors@))
            ==> r is Some,
{
    let ghost all = quota::anchors_view(anchors@);
    let ghost h = str_opt_view(html);
    assert(all.skip(0) =~= all);
    let mut i: usize = 0;
    while i < anchors.len()
        invariant
            i <= anchors@.len(),
            all == quota::anchors_view(anchors@),
            all.len() == anchors@.len(),
            h == str_opt_view(html),
            session_value_ok(text@, h, all) == session_value_ok(text@, h, all.skip(i as int)),
            session_value(text@, h, all) == session_value(text@, h, all.skip(i as int)),
        decreases anchors@.len() - i,
    {
        let ghost rest = all.skip(i as int);
        assert(rest[0] == anchors@[i as int]@);
        assert(rest.drop_first() =~= all.skip(i + 1));
        match scan_value_after_anchor(text, anchors[i]) {
            None => {
                return None;
            },
            Some(Some(v)) => {
                return Some(Some(v));
            },
            Some(None) => {},
        }
        match html {
            Some(raw) => match scan_value_after_anchor(raw, anchors[i]) {
                None => {
                    return None;
                },
                Some(Some(v)) => {
                    return Some(Some(v));
                },
                Some(None) => {},
            },
            None => {},
        }
        i = i + 1;
    }
    assert(all.skip(i as int).len() == 0);
    Some(None)
}

/// The first value found after one of `anchors`, trying each in turn on the text and
/// then on the HTML.
pub fn extract_session_value(text: &str, html: Option<&str>, anchors: &[&str]) -> (r: Option<String>)
    requires
        session_value_ok(text@, str_opt_view(html), quota::anchors_view(anchors@)),
    ensures
        quota::opt_view(r) == session_value(text@, str_opt_view(html), quota::anchors_view(anchors@)),
{
    scan_session_value(text, html, anchors).unwrap()
}

pub open spec fn namespace_anchors() -> Seq<Seq<char>> {
    seq!["session namespace"@, "session_namespace"@, "session-namespace"@]
}

pub open spec fn key_hint_anchors() -> Seq<Seq<char>> {
    seq!["session key hint"@, "session_key_hint"@, "session-key-hint"@]
}

pub open spec fn page_html_view(input: CodexQuotaPageInput) -> Option<Seq<char>> {
    quota::opt_view(input.page_html)
}

/// Reading the session hints of a page cuts only well formed windows out of it.
pub open spec fn session_page_ok(input: CodexQuotaPageInput) -> bool {
    &&& session_value_ok(input.page_text@, page_html_view(input), namespace_anchors())
    &&& session_value_ok(input.page_text@, page_html_view(input), key_hint_anchors())
}

/// The session hints that a page's text or HTML names.
pub open spec fn page_session(input: CodexQuotaPageInput) -> (Option<Seq<char>>, Option<Seq<char>>) {
    (
        session_value(input.page_text@, page_html_view(input), namespace_anchors()),
        session_value(input.page_text@, page_html_view(input), key_hint_anchors()),
    )
}

pub open spec fn session_view(s: CodexAppSessionInput) -> (Option<Seq<char>>, Option<Seq<char>>) {
    (quota::opt_view(s.session_namespace), quota::opt_view(s.session_key_hint))
}

fn html_str(input: &CodexQuotaPageInput) -> (r: Option<&str>)
    ensures
        str_opt_view(r) == page_html_view(*input),
{
    match &input.page_html {
        Some(h) => Some(h.as_str()),
        None => None,
    }
}

/// The anchors that a page is searched for session hints with are ASCII text.
proof fn lemma_session_anchors_ascii()
    ensures
        quota::ascii_anchors(namespace_anchors()),
        quota::ascii_anchors(key_hint_anchors()),
{
    reveal_strlit("session namespace");
    reveal_strlit("session_namespace");
    reveal_strlit("session-namespace");
    reveal_strlit("session key hint");
    reveal_strlit("session_key_hint");
    reveal_strlit("session-key-hint");
}

/// The page's text and HTML are ASCII and short enough for every window to end within `usize`.
pub open spec fn ascii_page(input: CodexQuotaPageInput) -> bool {
    ascii_sources_fit(input.page_text@, page_html_view(input))
}

fn scan_session_input(input: &CodexQuotaPageInput) -> (r: Option<CodexAppSessionInput>)
    ensures
        r is Some <==> session_page_ok(*input),
        r matches Some(s) ==> session_view(s) == page_session(*input),
        ascii_page(*input) ==> r is Some,
{
    proof {
        lemma_session_anchors_ascii();
    }
    let ns: [&str; 3] = ["session namespace", "session_namespace", "session-namespace"];
    let kh: [&str; 3] = ["session key hint", "session_key_hint", "session-key-hint"];
    assert(quota::anchors_view(ns@) =~= namespace_anchors());
    assert(quota::anchors_view(kh@) =~= key_hint_anchors());
    let html = html_str(input);
    let namespace = match scan_session_value(input.page_text.as_str(), html, &ns) {
        Some(v) => v,
        None => {
            return None;
        },
    };
    let key_hint = match scan_session_value(input.page_text.as_str(), html, &kh) {
        Some(v) => v,
        None => {
            return None;
        },
    };
    Some(CodexAppSessionInput { session_namespace: namespace, session_key_hint: key_hint })
}

/// The session hints that the page names in its text or HTML.
pub fn extract_session_input(input: &CodexQuotaPageInput) -> (r: CodexAppSessionInput)
    requires
        session_page_ok(*input),
    ensures
        session_view(r) == page_session(*input),
{
    scan_session_input(input).unwrap()
}

pub open spec fn or_else(a: Option<Seq<char>>, b: Option<Seq<char>>) -> Option<Seq<char>> {
    match a {
        Some(v) => Some(v),
        None => b,
    }
}

/// The hints that the caller gave, each completed from the page where the caller gave none.
pub open spec fn merged_session(input: CodexQuotaPageInput, given: CodexAppSessionInput) -> (Option<Seq<char>>, Option<Seq<char>>) {
    (
        or_else(session_view(given).0, page_session(input).0),
        or_else(session_view(given).1, page_session(input).1),
    )
}

fn or_clone(a: &Option<String>, b: Option<String>) -> (r: Option<String>)
    ensures
        quota::opt_view(r) == or_else(quota::opt_view(*a), quota::opt_view(b)),
{
    match a {
        Some(v) => Some(v.clone()),
        None => b,
    }
}

/// The hints that the caller gave, each completed from the page where the caller gave none.
pub fn merge_session_input(input: &CodexQuotaPageInput, session: &CodexAppSessionInput) -> (r: CodexAppSessionInput)
    requires
        session_page_ok(*input),
    ensures
        session_view(r) == merged_session(*input, *session),
{
    let extracted = extract_session_input(input);
    CodexAppSessionInput {
        session_namespace: or_clone(&session.session_namespace, extracted.session_namespace),
        session_key_hint: or_clone(&session.session_key_hint, extracted.session_key_hint),
    }
}

/// Where quota observations are kept (the store's path).
pub struct CodexQuotaCollector {
    pub dsn: String,
}

/// What an observation leaves to be stored: the snapshot, the session hints, and, for a
/// Codex App page with some hint, the id under which the session is kept.
pub struct CollectedObservation {
    pub snapshot: QuotaSnapshot,
    pub session: CodexAppSessionInput,
    pub session_record_id: Option<String>,
}

/// A session is kept for a `codex-app` page that has a namespace or a key hint.
pub open spec fn keeps_session(source_id: Seq<char>, s: (Option<Seq<char>>, Option<Seq<char>>)) -> bool {
    source_id == "codex-app"@ && (s.0 is Some || s.1 is Some)
}

/// Everything that reading a page cuts out of its text and HTML is well formed.
pub open spec fn collect_ok(input: CodexQuotaPageInput) -> bool {
    quota::quota_text_ok(input.page_text@) && session_page_ok(input)
}

/// What observing a page gives: its snapshot, its settled session hints, and the id the
/// session is kept under where it is kept.
pub open spec fn observation_matches(o: CollectedObservation, input: CodexQuotaPageInput, session: CodexAppSessionInput) -> bool {
    &&& exists|id: Seq<char>, at: Seq<char>, p: quota::ParsedCodexQuota|
        quota::parsed_matches(p, input.page_text@) && #[trigger] quota::snapshot_matches(
            o.snapshot,
            input,
            p,
            id,
            at,
        )
    &&& session_view(o.session) == merged_session(input, session)
    &&& quota::opt_view(o.session_record_id) == if keeps_session(
        input.source_id@,
        merged_session(input, session),
    ) {
        Some("codex-app-session:"@ + input.child_account_id@ + ":"@ + input.source_id@)
    } else {
        None::<Seq<char>>
    }
}

impl CodexQuotaCollector {
    pub fn new(dsn: String) -> (r: Self)
        ensures
            r.dsn@ == dsn@,
    {
        CodexQuotaCollector { dsn }
    }

    /// Reads the page and settles its session hints, or `None` where reading would cut a
    /// window out of the page at a byte that does not start a char.
    pub fn observe(&self, input: &CodexQuotaPageInput, session: &CodexAppSessionInput) -> (r: Option<CollectedObservation>)
        ensures
            r is Some <==> collect_ok(*input),
            r matches Some(o) ==> observation_matches(o, *input, *session),
            ascii_page(*input) ==> r is Some,
    {
        let snapshot = match quota::try_parse_quota_page(input) {
            Some(s) => s,
            None => {
                return None;
            },
        };
        let extracted = match scan_session_input(input) {
            Some(e) => e,
            None => {
                return None;
            },
        };
        let merged = CodexAppSessionInput {
            session_namespace: or_clone(&session.session_namespace, extracted.session_namespace),
            session_key_hint: or_clone(&session.session_key_hint, extracted.session_key_hint),
        };
        let codex_app = String::from_str("codex-app");
        let keep = input.source_id == codex_app && (merged.session_namespace.is_some()
            || merged.session_key_hint.is_some());
        let record_id = if keep {
            let mut id = String::from_str("codex-app-session:");
            id.append(input.child_account_id.as_str());
            id.append(":");
            id.append(input.source_id.as_str());
            Some(id)
        } else {
            None
        };
        Some(CollectedObservation { snapshot, session: merged, session_record_id: record_id })
    }
}

} // verus!
