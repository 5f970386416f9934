//! The hardware probe's arithmetic: from the chip name, the physical RAM in bytes and
//! the architecture flag (read from `sysctl` by the caller) to the probe result. RAM is
//! the dominant sizing factor on unified-memory machines, which is what makes a simple
//! tier table honest.
use vstd::prelude::*;
use crate::error::{AppError, error_message};
use crate::text::owned;
use crate::types::{ProbeResult, Tier, tier_rank};

verus! {

/// One gibibyte.
pub open spec fn gib() -> nat {
    1073741824
}

/// The tier a machine with `bytes` of RAM belongs to. Below 8 GB there is no tier (too
/// weak for a satisfying local model).
pub open spec fn tier_of_bytes(bytes: nat) -> Option<Tier> {
    if bytes < 8 * gib() {
        None
    } else if bytes < 12 * gib() {
        Some(Tier::Gb8)
    } else if bytes < 24 * gib() {
        Some(Tier::Gb16)
    } else if bytes < 48 * gib() {
        Some(Tier::Gb32)
    } else {
        Some(Tier::Gb64)
    }
}

/// RAM in tenths of a gigabyte, rounded half up.
pub open spec fn tenths_of_gib(bytes: nat) -> nat {
    (bytes * 10 + gib() / 2) / gib()
}

impl Tier {
    /// Map physical RAM (in bytes) to a tier.
    pub fn of_ram_bytes(bytes: u64) -> (r: Option<Tier>)
        ensures
            r == tier_of_bytes(bytes as nat),
    {
        let g: u64 = 1073741824;
        if bytes < 8 * g {
            None
        } else if bytes < 12 * g {
            Some(Tier::Gb8)
        } else if bytes < 24 * g {
            Some(Tier::Gb16)
        } else if bytes < 48 * g {
            Some(Tier::Gb32)
        } else {
            Some(Tier::Gb64)
        }
    }
}

/// More RAM never means a lower tier, and from 8 GB up every machine has one.
pub proof fn lemma_tier_monotone(a: nat, b: nat)
    requires
        a <= b,
    ensures
        tier_of_bytes(a) matches Some(ta) ==> (tier_of_bytes(b) matches Some(tb) && tier_rank(ta)
            <= tier_rank(tb)),
        a >= 8 * gib() ==> tier_of_bytes(a) is Some,
{
}

/// RAM in tenths of a gigabyte, rounded half up (the probe shows one decimal).
pub fn ram_tenths_gb(bytes: u64) -> (r: u64)
    ensures
        r == tenths_of_gib(bytes as nat),
{
    let b = bytes as u128;
    assert(b * 10 + 536870912 <= 0xffff_ffff_ffff_ffff_ffff_ffff_ffff_ffff) by (nonlinear_arith)
        requires
            b <= 0xffff_ffff_ffff_ffff,
    ;
    let t = (b * 10 + 536870912) / 1073741824;
    assert(t <= 0xffff_ffff_ffff_ffff) by (nonlinear_arith)
        requires
            b <= 0xffff_ffff_ffff_ffff,
            t == (b * 10 + 536870912) / 1073741824,
    ;
    t as u64
}

/// The reason shown when the machine is not Apple Silicon.
pub open spec fn unsupported_message() -> Seq<char> {
    "Flint needs Apple Silicon (M-series)."@
}

/// The probe result for a machine with this chip, RAM and architecture. The tier comes
/// from the exact RAM, the shown amount is rounded to a tenth.
pub fn probe_result(chip: String, ram_bytes: u64, arm64: bool) -> (r: ProbeResult)
    ensures
        r.chip == chip,
        r.ram_tenths_gb == tenths_of_gib(ram_bytes as nat),
        r.tier == tier_of_bytes(ram_bytes as nat),
        r.supported == arm64,
        arm64 ==> r.unsupported_reason is None,
        !arm64 ==> (r.unsupported_reason matches Some(m) && m@ == unsupported_message()),
{
    ProbeResult {
        chip,
        ram_tenths_gb: ram_tenths_gb(ram_bytes),
        tier: Tier::of_ram_bytes(ram_bytes),
        supported: arm64,
        unsupported_reason: if arm64 {
            None
        } else {
            Some(owned("Flint needs Apple Silicon (M-series)."))
        },
    }
}

/// The reason shown when the hardware could not be read; `detail` is the read's error.
pub open spec fn unreadable_message(detail: Seq<char>) -> Seq<char> {
    "Flint could not read this machine's hardware ("@ + detail + ")."@
}

/// The probe result from the machine's reads, any of which may have failed. A failed read
/// is no hard failure: the machine is reported as unsupported, without a tier, with a
/// plain-language reason naming the first failed read (the chip name is read first).
pub fn probe_from_reads(chip: Result<String, AppError>, ram_bytes: Result<u64, AppError>, arm64: bool) -> (r:
    ProbeResult)
    ensures
        match (chip, ram_bytes) {
            (Ok(c), Ok(b)) => {
                &&& r.chip == c
                &&& r.ram_tenths_gb == tenths_of_gib(b as nat)
                &&& r.tier == tier_of_bytes(b as nat)
                &&& r.supported == arm64
                &&& arm64 ==> r.unsupported_reason is None
                &&& !arm64 ==> (r.unsupported_reason matches Some(m) && m@ == unsupported_message())
            },
            (Err(e), _) => {
                &&& r.chip@ == Seq::<char>::empty()
                &&& r.ram_tenths_gb == 0
                &&& r.tier is None
                &&& !r.supported
                &&& r.unsupported_reason matches Some(m) && m@ == unreadable_message(error_message(e))
            },
            (Ok(c), Err(e)) => {
                &&& r.chip == c
                &&& r.ram_tenths_gb == 0
                &&& r.tier is None
                &&& !r.supported
                &&& r.unsupported_reason matches Some(m) && m@ == unreadable_message(error_message(e))
            },
        },
{
    let (name, failure) = match (chip, ram_bytes) {
        (Ok(c), Ok(b)) => {
            return probe_result(c, b, arm64);
        },
        (Err(e), _) => (String::new(), e),
        (Ok(c), Err(e)) => (c, e),
    };
    let reason = owned("Flint could not read this machine's hardware (").concat(
        failure.message().as_str(),
    ).concat(").");
    ProbeResult { chip: name, ram_tenths_gb: 0, tier: None, supported: false, unsupported_reason: Some(reason) }
}

} // verus!
