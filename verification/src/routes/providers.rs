//! The provider list.
use vstd::prelude::*;
use crate::domain::{ProviderDescriptor, class_name, provider_class_name};

verus! {

/// The provider list answer.
pub struct ProviderList {
    pub data: Vec<ProviderItem>,
}

/// A listed provider, its class by name.
pub struct ProviderItem {
    pub id: String,
    pub class: String,
    pub enabled: bool,
}

/// The provider list for the providers, in order.
pub fn list_providers(providers: &[ProviderDescriptor]) -> (r: ProviderList)
    ensures
        r.data@.len() == providers@.len(),
        forall|i: int| 0 <= i < providers@.len() ==> {
            let item = #[trigger] r.data@[i];
            item.id@ == providers@[i].id@ && item.class@ == class_name(providers@[i].class)
                && item.enabled == providers@[i].enabled
        },
{
    let mut data: Vec<ProviderItem> = Vec::new();
    let mut i: usize = 0;
    while i < providers.len()
        invariant
            i <= providers@.len(),
            data@.len() == i,
            forall|j: int| 0 <= j < i ==> {
                let item = #[trigger] data@[j];
                item.id@ == providers@[j].id@ && item.class@ == class_name(providers@[j].class)
                    && item.enabled == providers@[j].enabled
            },
        decreases providers@.len() - i,
    {
        let p = &providers[i];
        data.push(
            ProviderItem {
                id: p.id.clone(),
                class: String::from_str(provider_class_name(p.class)),
                enabled: p.enabled,
            },
        );
        i = i + 1;
    }
    ProviderList { data }
}

} // verus!
