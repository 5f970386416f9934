use flint::cookbook::{find_by_tag, model_for_tier, recommendation, table, COOKBOOK_AS_OF};
use flint::probe::ram_tenths_gb;
use flint::smoke::tier_unlocks_agent;
use flint::types::{AgentCapability, ProbeResult, Tier};

const GIB: f64 = 1073741824.0;

fn probe_for(ram_gb: f64) -> ProbeResult {
    let bytes = (ram_gb * GIB) as u64;
    ProbeResult {
        chip: "Apple M5 Pro".into(),
        ram_tenths_gb: ram_tenths_gb(bytes),
        tier: Tier::of_ram_bytes(bytes),
        supported: true,
        unsupported_reason: None,
    }
}

fn tenths(ram_gb: f64) -> u64 {
    (ram_gb * 10.0).round() as u64
}

#[test]
fn table_is_complete_and_locked() {
    let t = table();
    assert_eq!(t.len(), 4);
    for d in &t {
        assert!(!d.tag.is_empty());
        assert!(d.think == false, "thinking is off for the no-params chat pane");
        assert_eq!(d.agent, AgentCapability::Locked, "agent mode is Phase 2");
        assert!(d.num_ctx >= 8192);
    }
    // one model per tier
    for tier in [Tier::Gb8, Tier::Gb16, Tier::Gb32, Tier::Gb64] {
        assert_eq!(model_for_tier(tier).tag, t[tier as usize].tag);
    }
}

#[test]
fn each_tier_maps_to_its_model() {
    assert_eq!(model_for_tier(Tier::Gb8).tag, "qwen3:4b");
    assert_eq!(model_for_tier(Tier::Gb16).tag, "qwen3:8b");
    assert_eq!(model_for_tier(Tier::Gb32).tag, "qwen3:14b");
    assert_eq!(model_for_tier(Tier::Gb64).tag, "qwen3.6:latest");
}

#[test]
fn recommendation_flags_installed() {
    let p = probe_for(64.0);
    let rec = recommendation(&p, &[]).unwrap();
    assert_eq!(rec.model.unwrap().tag, "qwen3.6:latest");
    assert!(!rec.already_installed);
    assert_eq!(rec.as_of, COOKBOOK_AS_OF);

    let rec2 = recommendation(&p, &["qwen3.6:latest".to_string()]).unwrap();
    assert!(rec2.already_installed);
}

#[test]
fn unsupported_hardware_has_no_recommendation() {
    let p = ProbeResult {
        chip: "Intel Core i7".into(),
        ram_tenths_gb: tenths(16.0),
        tier: None,
        supported: false,
        unsupported_reason: Some("Flint needs Apple Silicon (M-series).".into()),
    };
    assert!(recommendation(&p, &[]).is_none());
}

#[test]
fn below_floor_has_no_recommendation() {
    let p = probe_for(4.0);
    assert!(recommendation(&p, &[]).is_none());
}

#[test]
fn tier_floor_is_32gb() {
    assert!(!tier_unlocks_agent(tenths(8.0)));
    assert!(!tier_unlocks_agent(tenths(16.0)));
    assert!(tier_unlocks_agent(tenths(32.0)));
    assert!(tier_unlocks_agent(tenths(64.0)));
}

#[test]
fn find_by_tag_finds_each_tier_model() {
    for tier in [Tier::Gb8, Tier::Gb16, Tier::Gb32, Tier::Gb64] {
        let d = model_for_tier(tier);
        let found = find_by_tag(&d.tag).unwrap();
        assert_eq!(found.tag, d.tag);
        assert_eq!(found.num_ctx, d.num_ctx);
        assert_eq!(found.size_tenths_gb, d.size_tenths_gb);
    }
    assert!(find_by_tag("llama3:70b").is_none());
    assert!(find_by_tag("").is_none());
}

#[test]
fn table_sizes_and_contexts() {
    let t = table();
    let sizes: Vec<u32> = t.iter().map(|d| d.size_tenths_gb).collect();
    assert_eq!(sizes, vec![29, 52, 90, 223]);
    let ctx: Vec<u32> = t.iter().map(|d| d.num_ctx).collect();
    assert_eq!(ctx, vec![8192, 8192, 16384, 16384]);
    assert_eq!(t[3].family, "Qwen3.6");
    assert_eq!(t[0].source, "https://ollama.com/library/qwen3");
}

#[test]
fn recommendation_copies_probe_and_ignores_other_tags() {
    let p = probe_for(16.0);
    let rec = recommendation(&p, &["qwen3.6:latest".to_string(), "qwen3:4b".to_string()]).unwrap();
    assert_eq!(rec.model.as_ref().unwrap().tag, "qwen3:8b");
    assert!(!rec.already_installed);
    assert_eq!(rec.probe.chip, "Apple M5 Pro");
    assert_eq!(rec.probe.tier, Some(Tier::Gb16));
    let rec = recommendation(&p, &["qwen3:8b".to_string()]).unwrap();
    assert!(rec.already_installed);
}

#[test]
fn tier_labels() {
    assert_eq!(Tier::Gb8.label(), "8 GB");
    assert_eq!(Tier::Gb16.label(), "16 GB");
    assert_eq!(Tier::Gb32.label(), "32 GB");
    assert_eq!(Tier::Gb64.label(), "64 GB+");
}
