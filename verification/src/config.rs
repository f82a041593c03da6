//! The gateway's settings, read from the values its environment gives.
use vstd::prelude::*;
use crate::text;
use crate::text::CharClass;
use crate::quota::opt_view;
use crate::domain::views;
use crate::transport::{OpenClawWsTransportMode, transport_mode_for};

verus! {

/// The gateway's settings.
pub struct Config {
    pub app_host: String,
    pub app_port: u16,
    pub openclaw_ws_url: String,
    pub openclaw_api_timeout_ms: u64,
    pub openclaw_ws_transport_mode: OpenClawWsTransportMode,
    pub api_keys: Vec<String>,
    pub models: Vec<String>,
    pub sqlite_path: String,
    pub codex_session_bridge_mode: String,
    pub third_party_provider_id: Option<String>,
    pub third_party_base_url: Option<String>,
    pub third_party_api_key: Option<String>,
    pub third_party_model: Option<String>,
    pub fingerprint_browser_provider: Option<String>,
    pub fingerprint_browser_base_url: Option<String>,
    pub fingerprint_browser_api_key: Option<String>,
}

/// The values the environment gives for each setting, where it gives one.
pub struct ConfigSettings {
    pub app_host: Option<String>,
    pub app_port: Option<String>,
    pub openclaw_ws_url: Option<String>,
    pub openclaw_api_timeout_ms: Option<String>,
    pub api_keys: Option<String>,
    pub models: Option<String>,
    pub sqlite_path: Option<String>,
    pub openclaw_ws_transport_mode: Option<String>,
    pub codex_session_bridge_mode: Option<String>,
    pub third_party_provider_id: Option<String>,
    pub third_party_base_url: Option<String>,
    pub third_party_api_key: Option<String>,
    pub third_party_model: Option<String>,
    pub fingerprint_browser_provider: Option<String>,
    pub fingerprint_browser_base_url: Option<String>,
    pub fingerprint_browser_api_key: Option<String>,
}

/// `str::split(',')`: the pieces between commas, in order (one piece for a text without a
/// comma).
pub open spec fn split_commas(s: Seq<char>) -> Seq<Seq<char>>
    decreases s.len(),
{
    if s.len() == 0 {
        seq![seq![]]
    } else {
        let rest = split_commas(s.drop_last());
        if s.last() == ',' {
            rest.push(seq![])
        } else {
            rest.update(rest.len() - 1, rest.last().push(s.last()))
        }
    }
}

/// Every piece trimmed.
pub open spec fn trim_all(ps: Seq<Seq<char>>) -> Seq<Seq<char>> {
    ps.map_values(|p: Seq<char>| text::trim_ws(p))
}

/// The trimmed pieces that are not blank, in order.
pub open spec fn nonblank_trimmed(ps: Seq<Seq<char>>) -> Seq<Seq<char>>
    decreases ps.len(),
{
    if ps.len() == 0 {
        seq![]
    } else {
        let rest = nonblank_trimmed(ps.drop_last());
        if text::trim_ws(ps.last()).len() == 0 {
            rest
        } else {
            rest.push(text::trim_ws(ps.last()))
        }
    }
}

proof fn lemma_nonblank_trimmed(ps: Seq<Seq<char>>)
    ensures
        forall|i: int| 0 <= i < nonblank_trimmed(ps).len() ==> (#[trigger] nonblank_trimmed(ps)[i]).len() > 0,
    decreases ps.len(),
{
    if ps.len() > 0 {
        lemma_nonblank_trimmed(ps.drop_last());
        let rest = nonblank_trimmed(ps.drop_last());
        if text::trim_ws(ps.last()).len() > 0 {
            assert forall|i: int| 0 <= i < rest.len() + 1 implies (#[trigger] rest.push(text::trim_ws(ps.last()))[i]).len() > 0 by {
                if i < rest.len() {
                    assert(rest.push(text::trim_ws(ps.last()))[i] == rest[i]);
                }
            }
        }
    }
}

/// The API keys a comma-separated list gives: each entry trimmed, blank ones left out.
pub open spec fn api_keys_of(raw: Seq<char>) -> Seq<Seq<char>> {
    nonblank_trimmed(split_commas(raw))
}

/// No API key read from a list is blank.
pub proof fn lemma_api_keys_nonblank(raw: Seq<char>)
    ensures
        forall|i: int| 0 <= i < api_keys_of(raw).len() ==> (#[trigger] api_keys_of(raw)[i]).len() > 0,
{
    lemma_nonblank_trimmed(split_commas(raw));
}

/// The models a comma-separated list gives: each entry trimmed.
pub open spec fn models_of(raw: Seq<char>) -> Seq<Seq<char>> {
    trim_all(split_commas(raw))
}

/// `str::parse` for an unsigned integer no larger than `max`: an optional `+`, then digits.
pub open spec fn unsigned_of(s: Seq<char>, max: nat) -> Option<nat> {
    let ds = if s.len() > 0 && s[0] == '+' { s.drop_first() } else { s };
    text::bounded_digits(ds, max)
}

/// The pieces of a text between commas.
pub fn split_on_commas(raw: &str) -> (r: Vec<String>)
    ensures
        views(r@) == split_commas(raw@),
{
    let cs = text::chars_of(raw);
    let mut pieces: Vec<String> = Vec::new();
    let mut current = String::new();
    let mut i: usize = 0;
    assert(cs@.take(0) =~= Seq::<char>::empty());
    assert(views(pieces@).push(current@) =~= seq![Seq::<char>::empty()]);
    while i < cs.len()
        invariant
            i <= cs@.len(),
            cs@ == raw@,
            split_commas(cs@.take(i as int)) == views(pieces@).push(current@),
        decreases cs@.len() - i,
    {
        let c = cs[i];
        let ghost before = views(pieces@).push(current@);
        assert(cs@.take(i + 1).drop_last() =~= cs@.take(i as int));
        assert(cs@.take(i + 1).last() == c);
        if c == ',' {
            let done = current;
            pieces.push(done);
            current = String::new();
            assert(views(pieces@).push(current@) =~= before.push(seq![]));
        } else {
            text::push_char(&mut current, c);
            assert(views(pieces@).push(current@) =~= before.update(before.len() - 1, before.last().push(c)));
        }
        i = i + 1;
    }
    assert(cs@.take(cs@.len() as int) =~= cs@);
    pieces.push(current);
    pieces
}

fn trimmed(s: &str) -> (r: String)
    ensures
        r@ == text::trim_ws(s@),
{
    let cs = text::chars_of(s);
    let (a, b) = text::trim_range(&cs, CharClass::Whitespace);
    text::string_of_range(&cs, a, b)
}

/// The API keys a comma-separated list gives: each entry trimmed, blank ones left out.
pub fn parse_api_keys(raw: &str) -> (r: Vec<String>)
    ensures
        views(r@) == api_keys_of(raw@),
{
    let pieces = split_on_commas(raw);
    let mut keys: Vec<String> = Vec::new();
    let mut i: usize = 0;
    assert(views(pieces@).take(0) =~= Seq::<Seq<char>>::empty());
    while i < pieces.len()
        invariant
            i <= pieces@.len(),
            views(keys@) == nonblank_trimmed(views(pieces@).take(i as int)),
        decreases pieces@.len() - i,
    {
        let t = trimmed(pieces[i].as_str());
        let ghost ps = views(pieces@);
        assert(ps.take(i + 1).drop_last() =~= ps.take(i as int));
        assert(ps.take(i + 1).last() == pieces@[i as int]@);
        if t.as_str().is_empty() {
        } else {
            let ghost before = views(keys@);
            keys.push(t);
            assert(views(keys@) =~= before.push(text::trim_ws(pieces@[i as int]@)));
        }
        i = i + 1;
    }
    assert(views(pieces@).take(pieces@.len() as int) =~= views(pieces@));
    keys
}

/// The models a comma-separated list gives: each entry trimmed.
pub fn parse_models(raw: &str) -> (r: Vec<String>)
    ensures
        views(r@) == models_of(raw@),
{
    let pieces = split_on_commas(raw);
    let mut models: Vec<String> = Vec::new();
    let mut i: usize = 0;
    while i < pieces.len()
        invariant
            i <= pieces@.len(),
            models@.len() == i,
            forall|j: int| 0 <= j < i ==> #[trigger] models@[j]@ == text::trim_ws(pieces@[j]@),
        decreases pieces@.len() - i,
    {
        models.push(trimmed(pieces[i].as_str()));
        i = i + 1;
    }
    assert(views(models@) =~= trim_all(views(pieces@)));
    models
}

/// Reads an unsigned integer no larger than `max`, as `str::parse` does.
pub fn parse_unsigned(raw: &str, max: u64) -> (r: Option<u64>)
    ensures
        r matches Some(v) ==> unsigned_of(raw@, max as nat) == Some(v as nat),
        r is None ==> unsigned_of(raw@, max as nat) is None,
{
    let cs = text::chars_of(raw);
    let from: usize = if cs.len() > 0 && cs[0] == '+' { 1 } else { 0 };
    assert(cs@.len() > 0 && cs@[0] == '+' ==> cs@.subrange(1, cs@.len() as int) =~= cs@.drop_first());
    assert(cs@.subrange(0, cs@.len() as int) =~= cs@);
    text::parse_digits(&cs, from, cs.len(), max)
}

pub open spec fn or_default(v: Option<String>, d: Seq<char>) -> Seq<char> {
    match v {
        Some(s) => s@,
        None => d,
    }
}

/// The settings that the environment's values give, each missing one at its default;
/// an error names the first of the port and the timeout that does not read as a number.
pub open spec fn config_from(s: ConfigSettings) -> Result<(Seq<char>, u16, Seq<char>, u64, OpenClawWsTransportMode, Seq<Seq<char>>, Seq<Seq<char>>, Seq<char>, Seq<char>), Seq<char>> {
    match unsigned_of(or_default(s.app_port, "8080"@), u16::MAX as nat) {
        None => Err("invalid APP_PORT"@),
        Some(port) => match unsigned_of(or_default(s.openclaw_api_timeout_ms, "15000"@), u64::MAX as nat) {
            None => Err("invalid OPENCLAW_API_TIMEOUT_MS"@),
            Some(timeout) => Ok((
                or_default(s.app_host, "127.0.0.1"@),
                port as u16,
                or_default(s.openclaw_ws_url, "ws://127.0.0.1:18789"@),
                timeout as u64,
                transport_mode_for(or_default(s.openclaw_ws_transport_mode, "mock"@)),
                api_keys_of(or_default(s.api_keys, seq![])),
                models_of(or_default(s.models, "openclaw-default"@)),
                or_default(s.sqlite_path, "dev.sqlite3"@),
                or_default(s.codex_session_bridge_mode, "mock"@),
            )),
        },
    }
}

pub open spec fn config_view(c: Config) -> (Seq<char>, u16, Seq<char>, u64, OpenClawWsTransportMode, Seq<Seq<char>>, Seq<Seq<char>>, Seq<char>, Seq<char>) {
    (
        c.app_host@,
        c.app_port,
        c.openclaw_ws_url@,
        c.openclaw_api_timeout_ms,
        c.openclaw_ws_transport_mode,
        views(c.api_keys@),
        views(c.models@),
        c.sqlite_path@,
        c.codex_session_bridge_mode@,
    )
}

fn value_or(v: Option<String>, d: &str) -> (r: String)
    ensures
        r@ == or_default(v, d@),
{
    match v {
        Some(s) => s,
        None => String::from_str(d),
    }
}

impl Config {
    /// The settings that the environment's values give.
    pub fn from_settings(s: ConfigSettings) -> (r: Result<Config, String>)
        ensures
            match (r, config_from(s)) {
                (Ok(c), Ok(v)) => config_view(c) == v && opt_view(c.third_party_provider_id) == opt_view(
                    s.third_party_provider_id,
                ) && opt_view(c.third_party_base_url) == opt_view(s.third_party_base_url)
                    && opt_view(c.third_party_api_key) == opt_view(s.third_party_api_key)
                    && opt_view(c.third_party_model) == opt_view(s.third_party_model)
                    && opt_view(c.fingerprint_browser_provider) == opt_view(s.fingerprint_browser_provider)
                    && opt_view(c.fingerprint_browser_base_url) == opt_view(s.fingerprint_browser_base_url)
                    && opt_view(c.fingerprint_browser_api_key) == opt_view(s.fingerprint_browser_api_key),
                (Err(e), Err(f)) => e@ == f,
                _ => false,
            },
    {
        let ghost sv = s;
        let port_text = value_or(s.app_port, "8080");
        let port = match parse_unsigned(port_text.as_str(), 65535) {
            Some(p) => p as u16,
            None => {
                return Err(String::from_str("invalid APP_PORT"));
            },
        };
        let timeout_text = value_or(s.openclaw_api_timeout_ms, "15000");
        let timeout = match parse_unsigned(timeout_text.as_str(), u64::MAX) {
            Some(t) => t,
            None => {
                return Err(String::from_str("invalid OPENCLAW_API_TIMEOUT_MS"));
            },
        };
        let keys_text = value_or(s.api_keys, "");
        proof {
            reveal_strlit("");
            assert(""@ =~= Seq::<char>::empty());
        }
        let models_text = value_or(s.models, "openclaw-default");
        let mode_text = value_or(s.openclaw_ws_transport_mode, "mock");
        Ok(
            Config {
                app_host: value_or(s.app_host, "127.0.0.1"),
                app_port: port,
                openclaw_ws_url: value_or(s.openclaw_ws_url, "ws://127.0.0.1:18789"),
                openclaw_api_timeout_ms: timeout,
                openclaw_ws_transport_mode: OpenClawWsTransportMode::from_str(mode_text.as_str()),
                api_keys: parse_api_keys(keys_text.as_str()),
                models: parse_models(models_text.as_str()),
                sqlite_path: value_or(s.sqlite_path, "dev.sqlite3"),
                codex_session_bridge_mode: value_or(s.codex_session_bridge_mode, "mock"),
                third_party_provider_id: s.third_party_provider_id,
                third_party_base_url: s.third_party_base_url,
                third_party_api_key: s.third_party_api_key,
                third_party_model: s.third_party_model,
                fingerprint_browser_provider: s.fingerprint_browser_provider,
                fingerprint_browser_base_url: s.fingerprint_browser_base_url,
                fingerprint_browser_api_key: s.fingerprint_browser_api_key,
            },
        )
    }

    /// The fingerprint browser's API key is set and not empty.
    pub fn fingerprint_api_key_configured(&self) -> (r: bool)
        ensures
            r == match opt_view(self.fingerprint_browser_api_key) {
                Some(k) => k.len() > 0,
                None => false,
            },
    {
        match &self.fingerprint_browser_api_key {
            Some(k) => !k.as_str().is_empty(),
            None => false,
        }
    }
}

} // verus!
