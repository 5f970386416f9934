//! The cookbook: a build-time-pinned tier table that maps hardware to exactly one
//! recommended model. No catalog, no choice for the user; the table's date is shown so
//! that staleness is honest.
use vstd::prelude::*;
use crate::text::owned;
use crate::types::{
    AgentCapability, ModelDescriptor, ModelDescriptorView, ProbeResult, Recommendation, Tier,
    tier_rank,
};

verus! {

/// "recommendations as of 2026-08": the table is refreshed with app updates, never
/// fetched silently.
pub const COOKBOOK_AS_OF: &'static str = "2026-08";

/// The pinned recommendation for each tier.
pub open spec fn cookbook_entry(t: Tier) -> ModelDescriptorView {
    match t {
        Tier::Gb8 => ModelDescriptorView {
            tag: "qwen3:4b"@,
            family: "Qwen3"@,
            size_tenths_gb: 29,
            license: "Apache-2.0"@,
            source: "https://ollama.com/library/qwen3"@,
            num_ctx: 8192,
            think: false,
            agent: AgentCapability::Locked,
        },
        Tier::Gb16 => ModelDescriptorView {
            tag: "qwen3:8b"@,
            family: "Qwen3"@,
            size_tenths_gb: 52,
            license: "Apache-2.0"@,
            source: "https://ollama.com/library/qwen3"@,
            num_ctx: 8192,
            think: false,
            agent: AgentCapability::Locked,
        },
        Tier::Gb32 => ModelDescriptorView {
            tag: "qwen3:14b"@,
            family: "Qwen3"@,
            size_tenths_gb: 90,
            license: "Apache-2.0"@,
            source: "https://ollama.com/library/qwen3"@,
            num_ctx: 16384,
            think: false,
            agent: AgentCapability::Locked,
        },
        Tier::Gb64 => ModelDescriptorView {
            tag: "qwen3.6:latest"@,
            family: "Qwen3.6"@,
            size_tenths_gb: 223,
            license: "Apache-2.0"@,
            source: "https://ollama.com/library/qwen3.6"@,
            num_ctx: 16384,
            think: false,
            agent: AgentCapability::Locked,
        },
    }
}

/// The tiers in table order.
pub open spec fn tier_order() -> Seq<Tier> {
    seq![Tier::Gb8, Tier::Gb16, Tier::Gb32, Tier::Gb64]
}

/// The table: one entry per tier, in tier order.
pub open spec fn cookbook_table() -> Seq<ModelDescriptorView> {
    tier_order().map_values(|t: Tier| cookbook_entry(t))
}

/// The tier whose model has this tag, if any (the first in table order).
pub open spec fn tier_of_tag(tag: Seq<char>) -> Option<Tier> {
    if cookbook_entry(Tier::Gb8).tag == tag {
        Some(Tier::Gb8)
    } else if cookbook_entry(Tier::Gb16).tag == tag {
        Some(Tier::Gb16)
    } else if cookbook_entry(Tier::Gb32).tag == tag {
        Some(Tier::Gb32)
    } else if cookbook_entry(Tier::Gb64).tag == tag {
        Some(Tier::Gb64)
    } else {
        None
    }
}

fn descriptor(
    tag: &str,
    family: &str,
    size_tenths_gb: u32,
    source: &str,
    num_ctx: u32,
) -> (r: ModelDescriptor)
    ensures
        r@ == (ModelDescriptorView {
            tag: tag@,
            family: family@,
            size_tenths_gb,
            license: "Apache-2.0"@,
            source: source@,
            num_ctx,
            think: false,
            agent: AgentCapability::Locked,
        }),
{
    ModelDescriptor {
        tag: owned(tag),
        family: owned(family),
        size_tenths_gb,
        license: owned("Apache-2.0"),
        source: owned(source),
        num_ctx,
        think: false,
        agent: AgentCapability::Locked,
    }
}

/// The single recommendation for a tier.
pub fn model_for_tier(tier: Tier) -> (r: ModelDescriptor)
    ensures
        r@ == cookbook_entry(tier),
{
    match tier {
        Tier::Gb8 => descriptor("qwen3:4b", "Qwen3", 29, "https://ollama.com/library/qwen3", 8192),
        Tier::Gb16 => descriptor("qwen3:8b", "Qwen3", 52, "https://ollama.com/library/qwen3", 8192),
        Tier::Gb32 => descriptor(
            "qwen3:14b",
            "Qwen3",
            90,
            "https://ollama.com/library/qwen3",
            16384,
        ),
        Tier::Gb64 => descriptor(
            "qwen3.6:latest",
            "Qwen3.6",
            223,
            "https://ollama.com/library/qwen3.6",
            16384,
        ),
    }
}

/// The whole table, one entry per tier in tier order (8 GB to 64 GB+).
pub fn table() -> (r: Vec<ModelDescriptor>)
    ensures
        r@.map_values(|d: ModelDescriptor| d@) == cookbook_table(),
{
    let mut v: Vec<ModelDescriptor> = Vec::new();
    v.push(model_for_tier(Tier::Gb8));
    v.push(model_for_tier(Tier::Gb16));
    v.push(model_for_tier(Tier::Gb32));
    v.push(model_for_tier(Tier::Gb64));
    assert(v@.map_values(|d: ModelDescriptor| d@) =~= cookbook_table());
    v
}

/// The model whose tag is `tag`, if the table has one.
pub fn find_by_tag(tag: &str) -> (r: Option<ModelDescriptor>)
    ensures
        match tier_of_tag(tag@) {
            Some(t) => r is Some && r->0@ == cookbook_entry(t),
            None => r is None,
        },
{
    let wanted = owned(tag);
    let candidates = table();
    let mut i: usize = 0;
    assert(candidates@.map_values(|d: ModelDescriptor| d@).len() == 4);
    while i < candidates.len()
        invariant
            wanted@ == tag@,
            candidates@.map_values(|d: ModelDescriptor| d@) == cookbook_table(),
            i <= 4,
            candidates@.len() == 4,
            forall|k: int| 0 <= k < i ==> cookbook_entry(#[trigger] tier_order()[k]).tag != tag@,
        decreases 4 - i,
    {
        assert(cookbook_table().len() == 4);
        assert(candidates@.map_values(|d: ModelDescriptor| d@).len() == 4);
        assert(candidates@.map_values(|d: ModelDescriptor| d@)[i as int] == candidates@[i as int]@);
        assert(cookbook_table()[i as int] == cookbook_entry(tier_order()[i as int]));
        assert(candidates@[i as int]@ == cookbook_table()[i as int]);
        if candidates[i].tag == wanted {
            assert(cookbook_entry(tier_order()[i as int]).tag == tag@);
            assert(tier_order()[0] == Tier::Gb8);
            assert(tier_order()[1] == Tier::Gb16);
            assert(tier_order()[2] == Tier::Gb32);
            assert(tier_order()[3] == Tier::Gb64);
            return Some(candidates[i].clone());
        }
        i = i + 1;
    }
    assert(tier_order()[0] == Tier::Gb8);
    assert(tier_order()[1] == Tier::Gb16);
    assert(tier_order()[2] == Tier::Gb32);
    assert(tier_order()[3] == Tier::Gb64);
    None
}

/// Whether `tag` is among the installed models' tags.
pub open spec fn is_installed(tag: Seq<char>, installed: Seq<String>) -> bool {
    exists|i: int| 0 <= i < installed.len() && #[trigger] installed[i]@ == tag
}

/// Full recommendation for the probe, with `already_installed` resolved against the
/// engine's current model list. None when the machine has no tier.
pub fn recommendation(probe: &ProbeResult, installed_tags: &[String]) -> (r: Option<
    Recommendation,
>)
    ensures
        probe.tier is None ==> r is None,
        probe.tier matches Some(t) ==> {
            &&& r is Some
            &&& r->0.probe == *probe
            &&& r->0.model matches Some(m) && m@ == cookbook_entry(t)
            &&& r->0.as_of@ == COOKBOOK_AS_OF@
            &&& r->0.already_installed == is_installed(cookbook_entry(t).tag, installed_tags@)
        },
{
    let tier = match probe.tier {
        Some(t) => t,
        None => {
            return None;
        },
    };
    let model = model_for_tier(tier);
    let mut installed = false;
    let mut i: usize = 0;
    while i < installed_tags.len()
        invariant
            i <= installed_tags@.len(),
            model@ == cookbook_entry(tier),
            installed == exists|k: int| 0 <= k < i && #[trigger] installed_tags@[k]@ == model.tag@,
        decreases installed_tags@.len() - i,
    {
        if installed_tags[i] == model.tag {
            installed = true;
        }
        i = i + 1;
    }
    Some(
        Recommendation {
            probe: probe.clone(),
            model: Some(model),
            as_of: owned(COOKBOOK_AS_OF),
            already_installed: installed,
        },
    )
}

/// The table is complete and locked: one model per tier, thinking off for the
/// parameter-free chat pane, agent mode locked on every row, and a context of at least
/// 8192 tokens.
pub proof fn lemma_table_complete_and_locked()
    ensures
        cookbook_table().len() == 4,
        forall|t: Tier| #[trigger] cookbook_table()[tier_rank(t)] == cookbook_entry(t),
        forall|i: int|
            0 <= i < 4 ==> {
                let d = #[trigger] cookbook_table()[i];
                &&& d.tag.len() > 0
                &&& !d.think
                &&& d.agent == AgentCapability::Locked
                &&& d.num_ctx >= 8192
            },
{
    reveal_strlit("qwen3:4b");
    reveal_strlit("qwen3:8b");
    reveal_strlit("qwen3:14b");
    reveal_strlit("qwen3.6:latest");
    assert forall|t: Tier| #[trigger] cookbook_table()[tier_rank(t)] == cookbook_entry(t) by {
        match t {
            Tier::Gb8 => {},
            Tier::Gb16 => {},
            Tier::Gb32 => {},
            Tier::Gb64 => {},
        }
    }
}

/// Each tier's model is found again by its tag: the tags in the table are distinct.
pub proof fn lemma_find_by_tag_inverts_model_for_tier(t: Tier)
    ensures
        tier_of_tag(cookbook_entry(t).tag) == Some(t),
{
    reveal_strlit("qwen3:4b");
    reveal_strlit("qwen3:8b");
    reveal_strlit("qwen3:14b");
    reveal_strlit("qwen3.6:latest");
    let a = "qwen3:4b"@;
    let b = "qwen3:8b"@;
    let c = "qwen3:14b"@;
    let d = "qwen3.6:latest"@;
    assert(a[6] != b[6]);
    assert(a.len() != c.len());
    assert(a.len() != d.len());
    assert(b.len() != c.len());
    assert(b.len() != d.len());
    assert(c.len() != d.len());
}

} // verus!
