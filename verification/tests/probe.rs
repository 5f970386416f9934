use flint::probe::{probe_from_reads, probe_result, ram_tenths_gb};
use flint::AppError;
use flint::types::Tier;

const GIB: u64 = 1 << 30;

#[test]
fn tier_of_ram_bytes_boundaries() {
    assert_eq!(Tier::of_ram_bytes(4 * GIB), None);
    assert_eq!(Tier::of_ram_bytes(8 * GIB - 1), None);
    assert_eq!(Tier::of_ram_bytes(8 * GIB), Some(Tier::Gb8));
    assert_eq!(Tier::of_ram_bytes(12 * GIB - 1), Some(Tier::Gb8));
    assert_eq!(Tier::of_ram_bytes(12 * GIB), Some(Tier::Gb16));
    assert_eq!(Tier::of_ram_bytes(16 * GIB), Some(Tier::Gb16));
    assert_eq!(Tier::of_ram_bytes(24 * GIB - 1), Some(Tier::Gb16));
    assert_eq!(Tier::of_ram_bytes(24 * GIB), Some(Tier::Gb32));
    assert_eq!(Tier::of_ram_bytes(48 * GIB - 1), Some(Tier::Gb32));
    assert_eq!(Tier::of_ram_bytes(48 * GIB), Some(Tier::Gb64));
    assert_eq!(Tier::of_ram_bytes(128 * GIB), Some(Tier::Gb64));
    assert_eq!(Tier::of_ram_bytes(u64::MAX), Some(Tier::Gb64));
}

#[test]
fn ram_is_shown_in_tenths_rounded_half_up() {
    assert_eq!(ram_tenths_gb(0), 0);
    assert_eq!(ram_tenths_gb(16 * GIB), 160);
    assert_eq!(ram_tenths_gb(GIB / 20 + 1), 1); // just over 0.05 GB rounds up
    assert_eq!(ram_tenths_gb(GIB / 20), 0); // just under 0.05 GB rounds down
    assert_eq!(ram_tenths_gb(36 * GIB), 360);
    assert_eq!(ram_tenths_gb(u64::MAX), 171798691840);
}

#[test]
fn probe_result_for_apple_silicon() {
    let p = probe_result("Apple M5 Pro".to_string(), 36 * GIB, true);
    assert_eq!(p.chip, "Apple M5 Pro");
    assert_eq!(p.ram_tenths_gb, 360);
    assert_eq!(p.tier, Some(Tier::Gb32));
    assert!(p.supported);
    assert_eq!(p.unsupported_reason, None);
}

#[test]
fn probe_result_for_intel() {
    let p = probe_result("Intel Core i7".to_string(), 16 * GIB, false);
    assert!(!p.supported);
    assert_eq!(p.tier, Some(Tier::Gb16));
    assert_eq!(p.unsupported_reason.as_deref(), Some("Flint needs Apple Silicon (M-series)."));
}

/// The tier boundaries at the RAM amounts (in GB) the tier table is written in.
#[test]
fn tier_of_ram_boundaries() {
    let of_gb = |gb: f64| Tier::of_ram_bytes((gb * GIB as f64) as u64);
    assert_eq!(of_gb(4.0), None); // below the floor: no tier
    assert_eq!(of_gb(8.0), Some(Tier::Gb8));
    assert_eq!(of_gb(11.9), Some(Tier::Gb8));
    assert_eq!(of_gb(12.0), Some(Tier::Gb16));
    assert_eq!(of_gb(16.0), Some(Tier::Gb16));
    assert_eq!(of_gb(23.9), Some(Tier::Gb16));
    assert_eq!(of_gb(24.0), Some(Tier::Gb32));
    assert_eq!(of_gb(47.9), Some(Tier::Gb32));
    assert_eq!(of_gb(48.0), Some(Tier::Gb64));
    assert_eq!(of_gb(64.0), Some(Tier::Gb64));
    assert_eq!(of_gb(128.0), Some(Tier::Gb64));
}

#[test]
fn a_failed_read_is_an_unsupported_machine() {
    let p = probe_from_reads(Err(AppError::Config("sysctlbyname(machdep.cpu.brand_string) failed: denied".into())), Ok(16 * GIB), true);
    assert!(!p.supported);
    assert_eq!(p.tier, None);
    assert_eq!(p.chip, "");
    assert_eq!(
        p.unsupported_reason.as_deref(),
        Some("Flint could not read this machine's hardware (config error: sysctlbyname(machdep.cpu.brand_string) failed: denied).")
    );
    let q = probe_from_reads(Ok("Apple M4".into()), Err(AppError::Config("no memsize".into())), true);
    assert_eq!((q.chip.as_str(), q.ram_tenths_gb, q.supported), ("Apple M4", 0, false));
    let r = probe_from_reads(Ok("Apple M4".into()), Ok(36 * GIB), true);
    assert_eq!((r.ram_tenths_gb, r.tier, r.supported), (360, Some(Tier::Gb32), true));
}
