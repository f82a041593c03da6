//! Reading quota signals out of the text of a Codex page.
use vstd::prelude::*;
use crate::text;
use crate::text::CharClass;
use crate::scan;
use crate::clock;
use vstd::utf8::is_ascii_chars;

verus! {

/// The page a quota observation was read from.
pub struct CodexQuotaPageInput {
    pub child_account_id: String,
    pub source_id: String,
    pub source_page: String,
    pub page_text: String,
    pub page_html: Option<String>,
    pub snapshot_ref: Option<String>,
}

/// The signals read from a page. A percentage is kept as the decimal text that was read
/// (digits with at most one `.`); `confidence_hundredths` is the confidence in hundredths.
pub struct ParsedCodexQuota {
    pub quota_5h_percent: Option<String>,
    pub quota_7d_percent: Option<String>,
    pub request_count: Option<i64>,
    pub token_count: Option<i64>,
    pub message_count: Option<i64>,
    pub confidence_hundredths: u64,
    pub parser_version: String,
    pub matched_signals: Vec<String>,
    pub warnings: Vec<String>,
}

/// One observation of a child account's quota.
pub struct QuotaSnapshot {
    pub id: String,
    pub child_account_id: String,
    pub observed_at: String,
    pub quota_5h_percent: Option<String>,
    pub quota_7d_percent: Option<String>,
    pub request_count: Option<i64>,
    pub token_count: Option<i64>,
    pub message_count: Option<i64>,
    pub source_id: Option<String>,
    pub source_page: Option<String>,
    pub confidence_hundredths: Option<u64>,
    pub read_ok: bool,
    pub error_reason: Option<String>,
}

/// How far after an anchor a number is looked for, in bytes.
pub const NUMBER_WINDOW: usize = 64;

pub open spec fn opt_view(o: Option<String>) -> Option<Seq<char>> {
    match o {
        Some(s) => Some(s@),
        None => None,
    }
}

pub open spec fn anchors_view(anchors: Seq<&str>) -> Seq<Seq<char>> {
    anchors.map_values(|a: &str| a@)
}

/// The digits after the first digit that follows the anchor.
pub open spec fn integer_token(w: Seq<char>) -> Seq<char> {
    text::take_while(text::skip_while(w, CharClass::NotAsciiDigit), CharClass::AsciiDigit)
}

/// The digits and dots after the first digit that follows the anchor.
pub open spec fn decimal_token(w: Seq<char>) -> Seq<char> {
    text::take_while(text::skip_while(w, CharClass::NotAsciiDigit), CharClass::DigitOrDot)
}

pub open spec fn dot_count(s: Seq<char>) -> nat
    decreases s.len(),
{
    if s.len() == 0 {
        0
    } else {
        dot_count(s.drop_last()) + if s.last() == '.' { 1nat } else { 0nat }
    }
}

/// What `str::parse::<i64>` gives for a run of digits.
pub open spec fn integer_of(tok: Seq<char>) -> Option<i64> {
    match text::bounded_digits(tok, i64::MAX as nat) {
        Some(v) => Some(v as i64),
        None => None,
    }
}

/// A run of digits and dots that starts with a digit reads as a float when it is
/// nonempty and has at most one dot.
pub open spec fn decimal_of(tok: Seq<char>) -> Option<Seq<char>> {
    if tok.len() > 0 && dot_count(tok) <= 1 {
        Some(tok)
    } else {
        None
    }
}

/// The integer after the first case-insensitive occurrence of `anchor` in `text`.
pub open spec fn integer_after(text: Seq<char>, anchor: Seq<char>) -> Option<i64> {
    match scan::window_text(text, anchor, true, NUMBER_WINDOW as int) {
        None => None,
        Some(w) => integer_of(integer_token(w)),
    }
}

/// The decimal after the first case-insensitive occurrence of `anchor` in `text`.
pub open spec fn percent_after(text: Seq<char>, anchor: Seq<char>) -> Option<Seq<char>> {
    match scan::window_text(text, anchor, true, NUMBER_WINDOW as int) {
        None => None,
        Some(w) => decimal_of(decimal_token(w)),
    }
}

/// An ASCII text, short enough for a number window to end within `usize`, and an ASCII
/// anchor.
pub open spec fn ascii_fits(text: Seq<char>, anchor: Seq<char>) -> bool {
    is_ascii_chars(text) && is_ascii_chars(anchor) && text.len() + NUMBER_WINDOW <= usize::MAX
}

/// Every anchor is ASCII text.
pub open spec fn ascii_anchors(anchors: Seq<Seq<char>>) -> bool {
    forall|i: int| 0 <= i < anchors.len() ==> is_ascii_chars(#[trigger] anchors[i])
}

pub open spec fn number_window_ok(text: Seq<char>, anchor: Seq<char>) -> bool {
    scan::window_ok(text, anchor, true, NUMBER_WINDOW as int)
}

/// The first anchor, in order, after which an integer is found.
pub open spec fn integer_after_any(text: Seq<char>, anchors: Seq<Seq<char>>) -> Option<i64>
    decreases anchors.len(),
{
    if anchors.len() == 0 {
        None
    } else {
        match integer_after(text, anchors[0]) {
            Some(v) => Some(v),
            None => integer_after_any(text, anchors.drop_first()),
        }
    }
}

/// The first anchor, in order, after which a decimal is found.
pub open spec fn percent_after_any(text: Seq<char>, anchors: Seq<Seq<char>>) -> Option<Seq<char>>
    decreases anchors.len(),
{
    if anchors.len() == 0 {
        None
    } else {
        match percent_after(text, anchors[0]) {
            Some(v) => Some(v),
            None => percent_after_any(text, anchors.drop_first()),
        }
    }
}

/// Every anchor that the search tries can have its window cut out.
pub open spec fn integer_any_ok(text: Seq<char>, anchors: Seq<Seq<char>>) -> bool
    decreases anchors.len(),
{
    anchors.len() == 0 || (number_window_ok(text, anchors[0]) && (integer_after(text, anchors[0])
        is None ==> integer_any_ok(text, anchors.drop_first())))
}

pub open spec fn percent_any_ok(text: Seq<char>, anchors: Seq<Seq<char>>) -> bool
    decreases anchors.len(),
{
    anchors.len() == 0 || (number_window_ok(text, anchors[0]) && (percent_after(text, anchors[0])
        is None ==> percent_any_ok(text, anchors.drop_first())))
}

fn scan_integer_after(text: &str, anchor: &str) -> (r: Option<Option<i64>>)
    ensures
        r is Some <==> number_window_ok(text@, anchor@),
        r matches Some(v) ==> v == integer_after(text@, anchor@),
        ascii_fits(text@, anchor@) ==> r is Some,
{
    match scan::anchored_window(text, anchor, true, NUMBER_WINDOW) {
        None => None,
        Some(None) => Some(None),
        Some(Some(w)) => {
            let cs = text::chars_of(w);
            let a = text::run_len(&cs, 0, CharClass::NotAsciiDigit);
            let n = text::run_len(&cs, a, CharClass::AsciiDigit);
            assert(cs@.skip(0) =~= cs@);
            assert(integer_token(w@) == cs@.subrange(a as int, a + n));
            match text::parse_digits(&cs, a, a + n, i64::MAX as u64) {
                Some(v) => Some(Some(v as i64)),
                None => Some(None),
            }
        },
    }
}

/// A char added at the end adds one dot where it is a dot.
pub proof fn lemma_dot_count_push(s: Seq<char>, c: char)
    ensures
        dot_count(s.push(c)) == dot_count(s) + if c == '.' { 1nat } else { 0nat },
{
    assert(s.push(c).drop_last() =~= s);
}

fn scan_percent_after(text: &str, anchor: &str) -> (r: Option<Option<String>>)
    ensures
        r is Some <==> number_window_ok(text@, anchor@),
        r matches Some(v) ==> opt_view(v) == percent_after(text@, anchor@),
        ascii_fits(text@, anchor@) ==> r is Some,
{
    match scan::anchored_window(text, anchor, true, NUMBER_WINDOW) {
        None => None,
        Some(None) => Some(None),
        Some(Some(w)) => {
            let cs = text::chars_of(w);
            let a = text::run_len(&cs, 0, CharClass::NotAsciiDigit);
            let n = text::run_len(&cs, a, CharClass::DigitOrDot);
            assert(cs@.skip(0) =~= cs@);
            let ghost tok = cs@.subrange(a as int, a + n);
            assert(decimal_token(w@) == tok);
            let mut dots: usize = 0;
            let mut i: usize = a;
            while i < a + n
                invariant
                    a <= i <= a + n <= cs@.len(),
                    tok == cs@.subrange(a as int, a + n),
                    dots as nat == dot_count(cs@.subrange(a as int, i as int)),
                    dots <= i - a,
                decreases a + n - i,
            {
                proof {
                    assert(cs@.subrange(a as int, i + 1) =~= cs@.subrange(a as int, i as int).push(
                        cs@[i as int],
                    ));
                    lemma_dot_count_push(cs@.subrange(a as int, i as int), cs@[i as int]);
                }
                if cs[i] == '.' {
                    dots = dots + 1;
                }
                i = i + 1;
            }
            if n > 0 && dots <= 1 {
                Some(Some(text::string_of_range(&cs, a, a + n)))
            } else {
                Some(None)
            }
        },
    }
}

/// The integer after the first case-insensitive occurrence of `anchor`: the digits that
/// follow the first digit within 64 bytes, read as an `i64`.
pub fn extract_integer_after(text: &str, anchor: &str) -> (r: Option<i64>)
    requires
        number_window_ok(text@, anchor@),
    ensures
        r == integer_after(text@, anchor@),
{
    scan_integer_after(text, anchor).unwrap()
}

fn scan_integer_after_any(text: &str, anchors: &[&str]) -> (r: Option<Option<i64>>)
    ensures
        r is Some <==> integer_any_ok(text@, anchors_view(anchors@)),
        r matches Some(v) ==> v == integer_after_any(text@, anchors_view(anchors@)),
        is_ascii_chars(text@) && text@.len() + NUMBER_WINDOW <= usize::MAX && ascii_anchors(
            anchors_view(anchors@),
        ) ==> r is Some,
{
    let ghost all = anchors_view(anchors@);
    assert(all.skip(0) =~= all);
    let mut i: usize = 0;
    while i < anchors.len()
        invariant
            i <= anchors@.len(),
            all == anchors_view(anchors@),
            all.len() == anchors@.len(),
            integer_any_ok(text@, all) == integer_any_ok(text@, all.skip(i as int)),
            integer_after_any(text@, all) == integer_after_any(text@, all.skip(i as int)),
        decreases anchors@.len() - i,
    {
        let ghost rest = all.skip(i as int);
        assert(rest[0] == anchors@[i as int]@);
        assert(rest.drop_first() =~= all.skip(i + 1));
        match scan_integer_after(text, anchors[i]) {
            None => {
                return None;
            },
            Some(Some(v)) => {
                return Some(Some(v));
            },
            Some(None) => {},
        }
        i = i + 1;
    }
    assert(all.skip(i as int).len() == 0);
    Some(None)
}

fn scan_percent_after_any(text: &str, anchors: &[&str]) -> (r: Option<Option<String>>)
    ensures
        r is Some <==> percent_any_ok(text@, anchors_view(anchors@)),
        r matches Some(v) ==> opt_view(v) == percent_after_any(text@, anchors_view(anchors@)),
        is_ascii_chars(text@) && text@.len() + NUMBER_WINDOW <= usize::MAX && ascii_anchors(
            anchors_view(anchors@),
        ) ==> r is Some,
{
    let ghost all = anchors_view(anchors@);
    assert(all.skip(0) =~= all);
    let mut i: usize = 0;
    while i < anchors.len()
        invariant
            i <= anchors@.len(),
            all == anchors_view(anchors@),
            all.len() == anchors@.len(),
            percent_any_ok(text@, all) == percent_any_ok(text@, all.skip(i as int)),
            percent_after_any(text@, all) == percent_after_any(text@, all.skip(i as int)),
        decreases anchors@.len() - i,
    {
        let ghost rest = all.skip(i as int);
        assert(rest[0] == anchors@[i as int]@);
        assert(rest.drop_first() =~= all.skip(i + 1));
        match scan_percent_after(text, anchors[i]) {
            None => {
                return None;
            },
            Some(Some(v)) => {
                return Some(Some(v));
            },
            Some(None) => {},
        }
        i = i + 1;
    }
    assert(all.skip(i as int).len() == 0);
    Some(None)
}

/// The integer after the first anchor, in order, after which one is found.
pub fn extract_integer_after_any(text: &str, anchors: &[&str]) -> (r: Option<i64>)
    requires
        integer_any_ok(text@, anchors_view(anchors@)),
    ensures
        r == integer_after_any(text@, anchors_view(anchors@)),
{
    scan_integer_after_any(text, anchors).unwrap()
}

pub open spec fn anchors_5h() -> Seq<Seq<char>> {
    seq!["5h"@, "5-hour"@, "5 hour"@]
}

pub open spec fn anchors_7d() -> Seq<Seq<char>> {
    seq!["7d"@, "7-day"@, "7 day"@]
}

pub open spec fn anchors_requests() -> Seq<Seq<char>> {
    seq!["requests"@, "request count"@]
}

pub open spec fn anchors_tokens() -> Seq<Seq<char>> {
    seq!["tokens"@, "token count"@]
}

pub open spec fn anchors_messages() -> Seq<Seq<char>> {
    seq!["messages"@, "message count"@]
}

/// Every window that reading the quota fields of `text` cuts out is well formed.
pub open spec fn quota_text_ok(text: Seq<char>) -> bool {
    &&& percent_any_ok(text, anchors_5h())
    &&& percent_any_ok(text, anchors_7d())
    &&& integer_any_ok(text, anchors_requests())
    &&& integer_any_ok(text, anchors_tokens())
    &&& integer_any_ok(text, anchors_messages())
}

/// The names of the signals found, in the order of the fields.
pub open spec fn signal_names(
    p5: bool,
    p7: bool,
    req: bool,
    tok: bool,
    msg: bool,
) -> Seq<Seq<char>> {
    (if p5 { seq!["quota_5h_percent"@] } else { seq![] }) + (if p7 {
        seq!["quota_7d_percent"@]
    } else {
        seq![]
    }) + (if req { seq!["request_count"@] } else { seq![] }) + (if tok {
        seq!["token_count"@]
    } else {
        seq![]
    }) + (if msg { seq!["message_count"@] } else { seq![] })
}

/// The confidence, in hundredths, for a number of signals found:
/// `0` for none, else `min(35 + 13 * found, 98)`.
pub open spec fn confidence_for(found: nat) -> nat {
    if found == 0 {
        0
    } else if 35 + 13 * found < 98 {
        35 + 13 * found
    } else {
        98
    }
}

/// The confidence never passes 98 hundredths, and it is 0 exactly when nothing was found.
pub proof fn lemma_confidence_bounds(found: nat)
    ensures
        confidence_for(found) <= 98,
        (confidence_for(found) == 0) <==> (found == 0),
{
}

pub open spec fn strings_view(v: Seq<String>) -> Seq<Seq<char>> {
    v.map_values(|s: String| s@)
}

/// What reading a page's text gives.
pub open spec fn parsed_matches(p: ParsedCodexQuota, text: Seq<char>) -> bool {
    let p5 = percent_after_any(text, anchors_5h());
    let p7 = percent_after_any(text, anchors_7d());
    let req = integer_after_any(text, anchors_requests());
    let tok = integer_after_any(text, anchors_tokens());
    let msg = integer_after_any(text, anchors_messages());
    let names = signal_names(p5 is Some, p7 is Some, req is Some, tok is Some, msg is Some);
    &&& opt_view(p.quota_5h_percent) == p5
    &&& opt_view(p.quota_7d_percent) == p7
    &&& p.request_count == req
    &&& p.token_count == tok
    &&& p.message_count == msg
    &&& strings_view(p.matched_signals@) == names
    &&& p.confidence_hundredths == confidence_for(names.len())
    &&& p.parser_version@ == "codex-parser-v1"@
    &&& p.warnings@.len() == 0
}

fn push_signal(v: &mut Vec<String>, found: bool, name: &str)
    ensures
        strings_view(final(v)@) == strings_view(old(v)@) + (if found { seq![name@] } else { seq![] }),
{
    if found {
        let ghost before = v@;
        v.push(String::from_str(name));
        assert(strings_view(v@) =~= strings_view(before) + seq![name@]);
    } else {
        assert(strings_view(v@) =~= strings_view(v@) + Seq::<Seq<char>>::empty());
    }
}

/// The anchors that a page is searched for are ASCII text.
proof fn lemma_quota_anchors_ascii()
    ensures
        ascii_anchors(anchors_5h()),
        ascii_anchors(anchors_7d()),
        ascii_anchors(anchors_requests()),
        ascii_anchors(anchors_tokens()),
        ascii_anchors(anchors_messages()),
{
    reveal_strlit("5h");
    reveal_strlit("5-hour");
    reveal_strlit("5 hour");
    reveal_strlit("7d");
    reveal_strlit("7-day");
    reveal_strlit("7 day");
    reveal_strlit("requests");
    reveal_strlit("request count");
    reveal_strlit("tokens");
    reveal_strlit("token count");
    reveal_strlit("messages");
    reveal_strlit("message count");
}

/// Reads the quota signals out of a page's text; `None` where a window cannot be cut out.
pub fn scan_quota_fields(text: &str) -> (r: Option<ParsedCodexQuota>)
    ensures
        r is Some <==> quota_text_ok(text@),
        r matches Some(p) ==> parsed_matches(p, text@),
        is_ascii_chars(text@) && text@.len() + NUMBER_WINDOW <= usize::MAX ==> r is Some,
{
    proof {
        lemma_quota_anchors_ascii();
    }
    let a5: [&str; 3] = ["5h", "5-hour", "5 hour"];
    let a7: [&str; 3] = ["7d", "7-day", "7 day"];
    let ar: [&str; 2] = ["requests", "request count"];
    let at: [&str; 2] = ["tokens", "token count"];
    let am: [&str; 2] = ["messages", "message count"];
    assert(anchors_view(a5@) =~= anchors_5h());
    assert(anchors_view(a7@) =~= anchors_7d());
    assert(anchors_view(ar@) =~= anchors_requests());
    assert(anchors_view(at@) =~= anchors_tokens());
    assert(anchors_view(am@) =~= anchors_messages());
    let p5 = match scan_percent_after_any(text, &a5) {
        Some(v) => v,
        None => {
            return None;
        },
    };
    let p7 = match scan_percent_after_any(text, &a7) {
        Some(v) => v,
        None => {
            return None;
        },
    };
    let req = match scan_integer_after_any(text, &ar) {
        Some(v) => v,
        None => {
            return None;
        },
    };
    let tok = match scan_integer_after_any(text, &at) {
        Some(v) => v,
        None => {
            return None;
        },
    };
    let msg = match scan_integer_after_any(text, &am) {
        Some(v) => v,
        None => {
            return None;
        },
    };
    let mut signals: Vec<String> = Vec::new();
    assert(strings_view(signals@) =~= Seq::<Seq<char>>::empty());
    push_signal(&mut signals, p5.is_some(), "quota_5h_percent");
    push_signal(&mut signals, p7.is_some(), "quota_7d_percent");
    push_signal(&mut signals, req.is_some(), "request_count");
    push_signal(&mut signals, tok.is_some(), "token_count");
    push_signal(&mut signals, msg.is_some(), "message_count");
    let ghost names = signal_names(p5 is Some, p7 is Some, req is Some, tok is Some, msg is Some);
    assert(strings_view(signals@) =~= names);
    let found = signals.len() as u64;
    assert(found == names.len());
    let confidence = if found == 0 {
        0
    } else if 35 + 13 * found < 98 {
        35 + 13 * found
    } else {
        98
    };
    Some(
        ParsedCodexQuota {
            quota_5h_percent: p5,
            quota_7d_percent: p7,
            request_count: req,
            token_count: tok,
            message_count: msg,
            confidence_hundredths: confidence,
            parser_version: String::from_str("codex-parser-v1"),
            matched_signals: signals,
            warnings: Vec::new(),
        },
    )
}

/// Reads the quota signals out of a page's text.
pub fn extract_quota_fields(text: &str) -> (r: ParsedCodexQuota)
    requires
        quota_text_ok(text@),
    ensures
        parsed_matches(r, text@),
{
    scan_quota_fields(text).unwrap()
}

/// Some signal was found.
pub open spec fn any_signal(p: ParsedCodexQuota) -> bool {
    p.quota_5h_percent is Some || p.quota_7d_percent is Some || p.request_count is Some
        || p.token_count is Some || p.message_count is Some
}

/// The snapshot that an observation with the given id and time makes of the parsed signals.
pub open spec fn snapshot_matches(
    s: QuotaSnapshot,
    input: CodexQuotaPageInput,
    p: ParsedCodexQuota,
    id: Seq<char>,
    observed_at: Seq<char>,
) -> bool {
    let read_ok = any_signal(p);
    &&& s.id@ == "quota-"@ + id
    &&& s.child_account_id@ == input.child_account_id@
    &&& s.observed_at@ == observed_at
    &&& opt_view(s.quota_5h_percent) == opt_view(p.quota_5h_percent)
    &&& opt_view(s.quota_7d_percent) == opt_view(p.quota_7d_percent)
    &&& s.request_count == p.request_count
    &&& s.token_count == p.token_count
    &&& s.message_count == p.message_count
    &&& opt_view(s.source_id) == Some(input.source_id@)
    &&& opt_view(s.source_page) == Some(input.source_page@)
    &&& s.confidence_hundredths == Some(p.confidence_hundredths)
    &&& s.read_ok == read_ok
    &&& opt_view(s.error_reason) == if read_ok {
        None::<Seq<char>>
    } else {
        Some("quota_signals_not_found"@)
    }
}

fn clone_opt(o: &Option<String>) -> (r: Option<String>)
    ensures
        opt_view(r) == opt_view(*o),
{
    match o {
        Some(s) => Some(s.clone()),
        None => None,
    }
}

/// Builds the snapshot of a page from its parsed signals, an observation id and its time.
pub fn snapshot_from_parsed(
    input: &CodexQuotaPageInput,
    parsed: &ParsedCodexQuota,
    id: &str,
    observed_at: &str,
) -> (r: QuotaSnapshot)
    ensures
        snapshot_matches(r, *input, *parsed, id@, observed_at@),
{
    let read_ok = parsed.quota_5h_percent.is_some() || parsed.quota_7d_percent.is_some()
        || parsed.request_count.is_some() || parsed.token_count.is_some()
        || parsed.message_count.is_some();
    QuotaSnapshot {
        id: text::concat2("quota-", id),
        child_account_id: input.child_account_id.clone(),
        observed_at: String::from_str(observed_at),
        quota_5h_percent: clone_opt(&parsed.quota_5h_percent),
        quota_7d_percent: clone_opt(&parsed.quota_7d_percent),
        request_count: parsed.request_count,
        token_count: parsed.token_count,
        message_count: parsed.message_count,
        source_id: Some(input.source_id.clone()),
        source_page: Some(input.source_page.clone()),
        confidence_hundredths: Some(parsed.confidence_hundredths),
        read_ok,
        error_reason: if read_ok {
            None
        } else {
            Some(String::from_str("quota_signals_not_found"))
        },
    }
}

/// Reads a page into a snapshot with a fresh random id, observed now.
pub fn parse_quota_page(input: &CodexQuotaPageInput) -> (r: QuotaSnapshot)
    requires
        quota_text_ok(input.page_text@),
    ensures
        exists|id: Seq<char>, at: Seq<char>, p: ParsedCodexQuota|
            parsed_matches(p, input.page_text@) && #[trigger] snapshot_matches(
                r,
                *input,
                p,
                id,
                at,
            ),
{
    try_parse_quota_page(input).unwrap()
}

/// Reads a page into a snapshot, or `None` where reading it would cut a window out of
/// the text at a byte that does not start a char.
pub fn try_parse_quota_page(input: &CodexQuotaPageInput) -> (r: Option<QuotaSnapshot>)
    ensures
        r is Some <==> quota_text_ok(input.page_text@),
        is_ascii_chars(input.page_text@) && input.page_text@.len() + NUMBER_WINDOW <= usize::MAX
            ==> r is Some,
        r matches Some(s) ==> exists|id: Seq<char>, at: Seq<char>, p: ParsedCodexQuota|
            parsed_matches(p, input.page_text@) && #[trigger] snapshot_matches(
                s,
                *input,
                p,
                id,
                at,
            ),
        r matches Some(s) ==> exists|id: Seq<char>, secs: i64, nanos: u32, p: ParsedCodexQuota|
            clock::uuid_v4_text(id) && clock::valid_instant((secs, nanos)) && parsed_matches(p, input.page_text@)
                && #[trigger] snapshot_matches(s, *input, p, id, clock::text_of(secs as int, nanos as int)),
{
    match scan_quota_fields(input.page_text.as_str()) {
        None => None,
        Some(parsed) => {
            let id = clock::new_uuid_text();
            let now = clock::now_text();
            let r = snapshot_from_parsed(input, &parsed, id.as_str(), now.as_str());
            assert(snapshot_matches(r, *input, parsed, id@, now@));
            Some(r)
        },
    }
}

/// The first of two readings that found something.
pub open spec fn first_found<T>(a: Option<T>, b: Option<T>) -> Option<T> {
    match a {
        Some(v) => Some(v),
        None => b,
    }
}

/// Each signal of a page is the number after the first of its anchors, in order, that has
/// one: the 5-hour percentage after "5h", else "5-hour", else "5 hour"; the 7-day percentage
/// after "7d", else "7-day", else "7 day"; the request count after "requests", else
/// "request count"; the token count after "tokens", else "token count"; the message count
/// after "messages", else "message count". The signals found are listed in that order, and
/// the confidence grows with their number.
pub proof fn lemma_signals_follow_their_anchors(p: ParsedCodexQuota, text: Seq<char>)
    requires
        parsed_matches(p, text),
    ensures
        opt_view(p.quota_5h_percent) == first_found(
            percent_after(text, "5h"@),
            first_found(percent_after(text, "5-hour"@), percent_after(text, "5 hour"@)),
        ),
        opt_view(p.quota_7d_percent) == first_found(
            percent_after(text, "7d"@),
            first_found(percent_after(text, "7-day"@), percent_after(text, "7 day"@)),
        ),
        p.request_count == first_found(integer_after(text, "requests"@), integer_after(text, "request count"@)),
        p.token_count == first_found(integer_after(text, "tokens"@), integer_after(text, "token count"@)),
        p.message_count == first_found(integer_after(text, "messages"@), integer_after(text, "message count"@)),
        p.quota_7d_percent is Some ==> strings_view(p.matched_signals@).contains("quota_7d_percent"@),
        p.quota_5h_percent is Some ==> strings_view(p.matched_signals@).contains("quota_5h_percent"@),
        p.quota_5h_percent is Some && p.quota_7d_percent is Some ==> p.confidence_hundredths >= 61,
{
    reveal_with_fuel(percent_after_any, 4);
    reveal_with_fuel(integer_after_any, 3);
    let a5 = anchors_5h();
    let a7 = anchors_7d();
    assert(a5[0] == "5h"@ && a5.drop_first()[0] == "5-hour"@ && a5.drop_first().drop_first()[0] == "5 hour"@);
    assert(a5.drop_first().drop_first().drop_first().len() == 0);
    assert(a7[0] == "7d"@ && a7.drop_first()[0] == "7-day"@ && a7.drop_first().drop_first()[0] == "7 day"@);
    assert(a7.drop_first().drop_first().drop_first().len() == 0);
    let ar = anchors_requests();
    let at = anchors_tokens();
    let am = anchors_messages();
    assert(ar[0] == "requests"@ && ar.drop_first()[0] == "request count"@ && ar.drop_first().drop_first().len() == 0);
    assert(at[0] == "tokens"@ && at.drop_first()[0] == "token count"@ && at.drop_first().drop_first().len() == 0);
    assert(am[0] == "messages"@ && am.drop_first()[0] == "message count"@ && am.drop_first().drop_first().len() == 0);
    let names = signal_names(
        p.quota_5h_percent is Some,
        p.quota_7d_percent is Some,
        p.request_count is Some,
        p.token_count is Some,
        p.message_count is Some,
    );
    if p.quota_5h_percent is Some {
        assert(names[0] == "quota_5h_percent"@);
    }
    if p.quota_7d_percent is Some {
        if p.quota_5h_percent is Some {
            assert(names[1] == "quota_7d_percent"@);
        } else {
            assert(names[0] == "quota_7d_percent"@);
        }
    }
}

} // verus!
