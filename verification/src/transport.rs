//! The client that speaks to the OpenClaw websocket bridge: its mode and settings.
use vstd::prelude::*;
use crate::text;

verus! {

/// Whether the websocket client answers locally or forwards to a real bridge.
#[derive(Clone, Copy, Debug, PartialEq, Eq, Structural)]
pub enum OpenClawWsTransportMode {
    Mock,
    Real,
}

/// The mode a setting names: `real`, in any ASCII case and with surrounding whitespace,
/// selects the real bridge; anything else the mock.
pub open spec fn transport_mode_for(value: Seq<char>) -> OpenClawWsTransportMode {
    if text::ascii_lower_seq(text::trim_ws(value)) == seq!['r', 'e', 'a', 'l'] {
        OpenClawWsTransportMode::Real
    } else {
        OpenClawWsTransportMode::Mock
    }
}

impl OpenClawWsTransportMode {
    pub fn from_str(value: &str) -> (r: Self)
        ensures
            r == transport_mode_for(value@),
    {
        let cs = text::chars_of(value);
        let (a, b) = text::trim_range(&cs, text::CharClass::Whitespace);
        let ghost t = cs@.subrange(a as int, b as int);
        let ghost word = seq!['r', 'e', 'a', 'l'];
        if b - a != 4 {
            assert(text::ascii_lower_seq(t).len() != 4);
            assert(text::ascii_lower_seq(t) != word);
            return OpenClawWsTransportMode::Mock;
        }
        let c0 = text::to_ascii_lower_char(cs[a]);
        let c1 = text::to_ascii_lower_char(cs[a + 1]);
        let c2 = text::to_ascii_lower_char(cs[a + 2]);
        let c3 = text::to_ascii_lower_char(cs[a + 3]);
        proof {
            let l = text::ascii_lower_seq(t);
            assert(l[0] == c0 && l[1] == c1 && l[2] == c2 && l[3] == c3);
        }
        if c0 == 'r' && c1 == 'e' && c2 == 'a' && c3 == 'l' {
            assert(text::ascii_lower_seq(t) =~= word);
            OpenClawWsTransportMode::Real
        } else {
            proof {
                let l = text::ascii_lower_seq(t);
                if l == word {
                    assert(l[0] == word[0] && l[1] == word[1] && l[2] == word[2] && l[3] == word[3]);
                }
            }
            OpenClawWsTransportMode::Mock
        }
    }
}

/// The websocket client's settings: where the bridge listens, how long a step may take,
/// and which mode it runs in.
pub struct OpenClawWsClient {
    pub url: String,
    pub timeout_ms: u64,
    pub mode: OpenClawWsTransportMode,
}

impl OpenClawWsClient {
    pub fn new(url: String, timeout_ms: u64, mode: OpenClawWsTransportMode) -> (r: Self)
        ensures
            r.url@ == url@,
            r.timeout_ms == timeout_ms,
            r.mode == mode,
    {
        OpenClawWsClient { url, timeout_ms, mode }
    }

    /// How a Codex App request is carried once the upstream answered its readiness check
    /// (`upstream_ready`): by the client's transport, or not at all where the upstream is not
    /// ready.
    pub fn codex_app_transport(&self, upstream_ready: bool) -> (r: Result<OpenClawWsTransportMode, String>)
        ensures
            !upstream_ready ==> (r matches Err(e) && e@ == "upstream unavailable"@),
            upstream_ready ==> r == Ok::<OpenClawWsTransportMode, String>(self.mode),
    {
        if !upstream_ready {
            return Err(String::from_str("upstream unavailable"));
        }
        Ok(self.mode)
    }
}

} // verus!
