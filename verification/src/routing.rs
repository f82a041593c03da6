//! Choosing the provider that serves a model.
use vstd::prelude::*;
use crate::domain::ProviderDescriptor;

verus! {

/// The provider to fall back on.
pub struct RoutingPolicy {
    pub default_provider: String,
}

/// The provider chosen for a model, and why.
pub struct RoutingDecision {
    pub model: String,
    pub selected_provider: String,
    pub reason: String,
}

/// The explanation of a decision: `model=<model> provider=<provider> reason=<reason>`.
pub open spec fn explain_text(d: RoutingDecision) -> Seq<char> {
    "model="@ + d.model@ + " provider="@ + d.selected_provider@ + " reason="@ + d.reason@
}

/// The policy that falls back on the OpenClaw gateway.
pub fn default_policy() -> (r: RoutingPolicy)
    ensures
        r.default_provider@ == "gateway.openclaw"@,
{
    RoutingPolicy { default_provider: String::from_str("gateway.openclaw") }
}

/// The id of the first enabled provider, in order, if any.
pub open spec fn first_enabled(ps: Seq<ProviderDescriptor>) -> Option<Seq<char>>
    decreases ps.len(),
{
    if ps.len() == 0 {
        None
    } else if ps[0].enabled {
        Some(ps[0].id@)
    } else {
        first_enabled(ps.drop_first())
    }
}

/// The first enabled provider is an enabled provider of the pool, and every provider listed
/// before it is disabled; there is none only where every provider is disabled.
pub proof fn lemma_first_enabled_is_first(ps: Seq<ProviderDescriptor>)
    ensures
        first_enabled(ps) is None <==> (forall|k: int| 0 <= k < ps.len() ==> !(#[trigger] ps[k]).enabled),
        first_enabled(ps) matches Some(id) ==> exists|k: int|
            0 <= k < ps.len() && (#[trigger] ps[k]).enabled && ps[k].id@ == id && (forall|j: int| 0 <= j < k ==> !(#[trigger] ps[j]).enabled),
    decreases ps.len(),
{
    if ps.len() > 0 {
        let t = ps.drop_first();
        lemma_first_enabled_is_first(t);
        assert(forall|k: int| 0 <= k < t.len() ==> #[trigger] t[k] == ps[k + 1]);
        if ps[0].enabled {
            assert(forall|j: int| 0 <= j < 0 ==> !(#[trigger] ps[j]).enabled);
        } else {
            if let Some(id) = first_enabled(t) {
                let k = choose|k: int|
                    0 <= k < t.len() && (#[trigger] t[k]).enabled && t[k].id@ == id && (forall|j: int| 0 <= j < k ==> !(#[trigger] t[j]).enabled);
                assert(ps[k + 1] == t[k]);
                assert forall|j: int| 0 <= j < k + 1 implies !(#[trigger] ps[j]).enabled by {
                    if j > 0 {
                        assert(ps[j] == t[j - 1]);
                    }
                }
            } else {
                assert forall|k: int| 0 <= k < ps.len() implies !(#[trigger] ps[k]).enabled by {
                    if k > 0 {
                        assert(ps[k] == t[k - 1]);
                    }
                }
            }
        }
    }
}

/// The provider a model is routed to: the first enabled provider of the pool where one is
/// listed, else the policy's default.
pub open spec fn chosen_provider(providers: Option<Seq<ProviderDescriptor>>, policy: RoutingPolicy) -> Seq<char> {
    match providers {
        Some(ps) => match first_enabled(ps) {
            Some(id) => id,
            None => policy.default_provider@,
        },
        None => policy.default_provider@,
    }
}

/// Routes a model: to the first enabled provider of the listed pool, or, where no pool is
/// listed or none is enabled, to the policy's default.
pub fn decide_provider(model: &str, policy: &RoutingPolicy, providers: Option<&[ProviderDescriptor]>) -> (r: RoutingDecision)
    ensures
        r.model@ == model@,
        r.selected_provider@ == chosen_provider(
            match providers {
                Some(ps) => Some(ps@),
                None => None,
            },
            *policy,
        ),
        r.reason@ == "sqlite-backed provider selected"@,
{
    let mut selected: Option<String> = None;
    if let Some(ps) = providers {
        let mut i: usize = 0;
        let mut found = false;
        assert(ps@.skip(0) =~= ps@);
        while i < ps.len() && !found
            invariant
                i <= ps@.len(),
                !found ==> selected is None && first_enabled(ps@) == first_enabled(ps@.skip(i as int)),
                found ==> (selected matches Some(s) && first_enabled(ps@) == Some(s@)),
            decreases ps@.len() - i,
        {
            assert(ps@.skip(i as int).drop_first() =~= ps@.skip(i + 1));
            assert(ps@.skip(i as int)[0] == ps@[i as int]);
            if ps[i].enabled {
                selected = Some(ps[i].id.clone());
                found = true;
            }
            i = i + 1;
        }
        assert(!found ==> ps@.skip(i as int).len() == 0);
    }
    let provider = match selected {
        Some(s) => s,
        None => policy.default_provider.clone(),
    };
    RoutingDecision {
        model: String::from_str(model),
        selected_provider: provider,
        reason: String::from_str("sqlite-backed provider selected"),
    }
}

} // verus!
