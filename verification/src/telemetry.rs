use std::collections::HashMap;

use vstd::prelude::*;

use crate::error::Error;

verus! {

/// The model-specific register holding the package energy counter.
pub const MSR_PKG_ENERGY_STATUS: u32 = 1553;

/// The model-specific register holding the DRAM energy counter.
pub const MSR_DRAM_ENERGY_STATUS: u32 = 1561;

/// The model-specific register holding the power-plane-zero energy counter.
pub const MSR_PP0_ENERGY_STATUS: u32 = 1593;

/// The model-specific register holding the RAPL power unit word.
pub const MSR_RAPL_POWER_UNIT: u32 = 1542;

/// The wraparound-safe difference between two reads of a 32-bit cumulative
/// energy counter.
pub open spec fn spec_energy_delta(prev: u64, cur: u64) -> int
    recommends
        prev <= u32::MAX,
        cur <= u32::MAX,
{
    if prev > cur {
        (u32::MAX - prev) + cur
    } else {
        cur - prev
    }
}

/// Computes the energy consumed between two counter reads, tolerating one
/// counter wraparound: when the current read is below the previous one the
/// counter has wrapped, and the delta is the distance to the counter's
/// ceiling plus the new reading, never a negative number.
pub fn energy_delta(prev: u64, cur: u64) -> (r: u64)
    requires
        prev <= u32::MAX,
        cur <= u32::MAX,
    ensures
        r == spec_energy_delta(prev, cur),
{
    if prev > cur {
        (u32::MAX as u64 - prev) + cur
    } else {
        cur - prev
    }
}

/// The energy-status-unit exponent carried in bits 8 through 11 of the RAPL
/// power unit word; one counter unit is `1 / 2^exponent` joules.
pub open spec fn spec_energy_unit_exponent(raw: u64) -> u64 {
    (raw & 0xF00) >> 8
}

/// Extracts the energy-status-unit exponent from a raw read of the RAPL
/// power unit register.
pub fn energy_unit_exponent(raw: u64) -> (r: u64)
    ensures
        r == spec_energy_unit_exponent(raw),
        r <= 15,
    {
    proof {
        assert((raw & 0xF00) >> 8 <= 15) by (bit_vector);
    }
    (raw & 0xF00) >> 8
}

/// Whether a sampling loop that started `elapsed_secs` ago should stop,
/// given a run-time limit in seconds where zero means no limit.
pub fn should_terminate(limit: u64, elapsed_secs: u64) -> (r: bool)
    ensures
        r == (limit > 0 && elapsed_secs >= limit),
{
    limit > 0 && elapsed_secs >= limit
}

/// How a zone's raw counter units convert to joules.
#[derive(Debug, Clone, Copy, PartialEq, Eq, Structural)]
pub enum EnergyUnit {
    /// One unit is `1 / 2^exponent` joules.
    InversePowerOfTwo(u64),
    /// One unit is this many microjoules.
    MicroJoules(u64),
}

/// The power domain a zone's counter covers.
#[derive(Debug, Clone, Copy, PartialEq, Eq, Structural)]
pub enum ZoneKind {
    PowerPlaneZero,
    Dram,
    Package,
}

/// One RAPL energy counter: the core whose register file exposes it, the
/// package it belongs to, the register to read and the unit of its counts.
#[derive(Debug, Clone, Copy, PartialEq, Eq, Structural)]
pub struct RaplZone {
    pub core: u32,
    pub pkg: u32,
    pub kind: ZoneKind,
    pub which: u32,
    pub unit: EnergyUnit,
}

/// What zone detection needs to know of one CPU package, as plain values:
/// its id, whether the vendor string identified an Intel part, the family
/// and model words, the core chosen to read its registers through, and a
/// raw read of its RAPL power unit register.
#[derive(Debug, Clone, Copy, PartialEq, Eq, Structural)]
pub struct CpuPackage {
    pub pkg_id: u32,
    pub vendor_intel: bool,
    pub display_family: u32,
    pub display_model: u32,
    pub core: u32,
    pub rapl_power_unit: u64,
}

/// The zones one package contributes: on the one supported
/// microarchitecture (family 6, model 143) the power-plane-zero, DRAM and
/// package counters; none elsewhere.
pub open spec fn spec_zones_of(p: CpuPackage) -> Seq<RaplZone> {
    if p.display_family == 6 && p.display_model == 143 {
        seq![
            RaplZone {
                core: p.core,
                pkg: p.pkg_id,
                kind: ZoneKind::PowerPlaneZero,
                which: MSR_PP0_ENERGY_STATUS,
                unit: EnergyUnit::InversePowerOfTwo(spec_energy_unit_exponent(p.rapl_power_unit)),
            },
            RaplZone {
                core: p.core,
                pkg: p.pkg_id,
                kind: ZoneKind::Dram,
                which: MSR_DRAM_ENERGY_STATUS,
                unit: EnergyUnit::MicroJoules(61),
            },
            RaplZone {
                core: p.core,
                pkg: p.pkg_id,
                kind: ZoneKind::Package,
                which: MSR_PKG_ENERGY_STATUS,
                unit: EnergyUnit::InversePowerOfTwo(spec_energy_unit_exponent(p.rapl_power_unit)),
            },
        ]
    } else {
        Seq::empty()
    }
}

/// The zones of a sequence of packages, in package order.
pub open spec fn spec_detect_zones(packages: Seq<CpuPackage>) -> Seq<RaplZone>
    decreases packages.len(),
{
    if packages.len() == 0 {
        Seq::empty()
    } else {
        spec_detect_zones(packages.drop_last()) + spec_zones_of(packages.last())
    }
}

/// Builds the zone list for the given packages. Every package must be an
/// Intel part; any other vendor fails with `Error::HardwareAccess`.
pub fn detect_zones(packages: &Vec<CpuPackage>) -> (r: Result<Vec<RaplZone>, Error>)
    ensures
        match r {
            Ok(zones) => {
                &&& forall|i: int| 0 <= i < packages@.len() ==> (#[trigger] packages@[i]).vendor_intel
                &&& zones@ == spec_detect_zones(packages@)
            },
            Err(e) => {
                &&& e == Error::HardwareAccess
                &&& exists|i: int|
                    0 <= i < packages@.len() && !(#[trigger] packages@[i]).vendor_intel
            },
        },
{
    let mut zones: Vec<RaplZone> = Vec::new();
    let mut i: usize = 0;
    let n = packages.len();
    while i < n
        invariant
            0 <= i <= n,
            n == packages@.len(),
            zones@ == spec_detect_zones(packages@.take(i as int)),
            forall|k: int| 0 <= k < i ==> (#[trigger] packages@[k]).vendor_intel,
        decreases n - i,
    {
        let p = packages[i];
        if !p.vendor_intel {
            return Err(Error::HardwareAccess);
        }
        proof {
            assert(packages@.take(i as int + 1).drop_last() =~= packages@.take(i as int));
        }
        if p.display_family == 6 && p.display_model == 143 {
            let exp = energy_unit_exponent(p.rapl_power_unit);
            zones.push(
                RaplZone {
                    core: p.core,
                    pkg: p.pkg_id,
                    kind: ZoneKind::PowerPlaneZero,
                    which: MSR_PP0_ENERGY_STATUS,
                    unit: EnergyUnit::InversePowerOfTwo(exp),
                },
            );
            zones.push(
                RaplZone {
                    core: p.core,
                    pkg: p.pkg_id,
                    kind: ZoneKind::Dram,
                    which: MSR_DRAM_ENERGY_STATUS,
                    unit: EnergyUnit::MicroJoules(61),
                },
            );
            zones.push(
                RaplZone {
                    core: p.core,
                    pkg: p.pkg_id,
                    kind: ZoneKind::Package,
                    which: MSR_PKG_ENERGY_STATUS,
                    unit: EnergyUnit::InversePowerOfTwo(exp),
                },
            );
            proof {
                assert(zones@ =~= spec_detect_zones(packages@.take(i as int + 1)));
            }
        } else {
            proof {
                assert(zones@ =~= spec_detect_zones(packages@.take(i as int + 1)));
            }
        }
        i += 1;
    }
    proof {
        assert(packages@.take(n as int) =~= packages@);
    }
    Ok(zones)
}

/// Accumulates one zone's energy counter over a run: the previous raw read,
/// the total units consumed since the start, and the seconds elapsed. The
/// very first sample only primes the counter, so every total starts at
/// zero.
pub struct EnergyCounter {
    prev_raw: u64,
    total_units: u64,
    time_elapsed: u64,
    primed: bool,
}

impl EnergyCounter {
    /// The raw value of the previous read.
    pub closed spec fn spec_prev_raw(&self) -> u64 {
        self.prev_raw
    }

    /// The total units consumed since the first sample.
    pub closed spec fn spec_total_units(&self) -> u64 {
        self.total_units
    }

    /// The seconds between the start of the run and the last sample.
    pub closed spec fn spec_time_elapsed(&self) -> u64 {
        self.time_elapsed
    }

    /// Whether a first sample has primed the counter.
    pub closed spec fn spec_primed(&self) -> bool {
        self.primed
    }

    /// The previous read always fits the 32-bit counter.
    pub open spec fn wf(&self) -> bool {
        self.spec_prev_raw() <= u32::MAX
    }

    pub fn new() -> (r: EnergyCounter)
        ensures
            r.wf(),
            !r.spec_primed(),
            r.spec_prev_raw() == 0,
            r.spec_total_units() == 0,
            r.spec_time_elapsed() == 0,
    {
        EnergyCounter { prev_raw: 0, total_units: 0, time_elapsed: 0, primed: false }
    }

    /// The raw value of the previous read.
    pub fn prev_raw(&self) -> (r: u64)
        ensures
            r == self.spec_prev_raw(),
    {
        self.prev_raw
    }

    /// The total units consumed since the first sample.
    pub fn total_units(&self) -> (r: u64)
        ensures
            r == self.spec_total_units(),
    {
        self.total_units
    }

    /// The seconds between the start of the run and the last sample.
    pub fn time_elapsed(&self) -> (r: u64)
        ensures
            r == self.spec_time_elapsed(),
    {
        self.time_elapsed
    }

    /// Feeds one raw read of the 32-bit counter into the accumulator,
    /// returning the wraparound-safe delta in counter units. The first
    /// sample returns zero and only records the reading, so totals begin at
    /// zero; afterwards the delta is added to the running total.
    pub fn sample(&mut self, cur_raw: u64, elapsed_secs: u64) -> (delta: u64)
        requires
            old(self).wf(),
            cur_raw <= u32::MAX,
            old(self).spec_total_units() + u32::MAX <= u64::MAX,
        ensures
            final(self).wf(),
            delta == (if old(self).spec_primed() {
                spec_energy_delta(old(self).spec_prev_raw(), cur_raw)
            } else {
                0
            }),
            final(self).spec_prev_raw() == cur_raw,
            final(self).spec_total_units() == old(self).spec_total_units() + delta,
            final(self).spec_time_elapsed() == elapsed_secs,
            final(self).spec_primed(),
    {
        let delta: u64 = if self.primed {
            energy_delta(self.prev_raw, cur_raw)
        } else {
            0
        };
        self.prev_raw = cur_raw;
        self.total_units = self.total_units + delta;
        self.time_elapsed = elapsed_secs;
        self.primed = true;
        delta
    }
}

/// The process-wide registry of energy reader handles: which core's
/// register file is open for each package. The first read of a package
/// registers its handle; later reads borrow it for the life of the
/// process.
pub struct EnergyReaderRegistry {
    open_cores: HashMap<u32, u32>,
}

impl EnergyReaderRegistry {
    /// The registered packages and the core each one reads through.
    pub closed spec fn spec_map(&self) -> Map<u32, u32> {
        self.open_cores@
    }

    pub fn new() -> (r: EnergyReaderRegistry)
        ensures
            r.spec_map() == Map::<u32, u32>::empty(),
    {
        EnergyReaderRegistry { open_cores: HashMap::new() }
    }

    /// The core registered for `pkg`, if its handle is already open.
    pub fn lookup(&self, pkg: u32) -> (r: Option<u32>)
        ensures
            match r {
                Some(core) => self.spec_map().contains_key(pkg) && self.spec_map()[pkg] == core,
                None => !self.spec_map().contains_key(pkg),
            },
    {
        match self.open_cores.get(&pkg) {
            Some(core) => Some(*core),
            None => None,
        }
    }

    /// Records that `pkg`'s handle was opened through `core`.
    pub fn register(&mut self, pkg: u32, core: u32)
        ensures
            final(self).spec_map() == old(self).spec_map().insert(pkg, core),
    {
        self.open_cores.insert(pkg, core);
    }
}

/// Picks the core an energy reader should open for a package: the lowest
/// set bit of the package's logical-core mask, or core zero when the mask
/// is empty.
pub fn first_set_core(lcores: &Vec<bool>) -> (r: u32)
    requires
        lcores@.len() <= u32::MAX,
    ensures
        forall|k: int| 0 <= k < r ==> !lcores@[k],
        (exists|i: int| 0 <= i < lcores@.len() && lcores@[i]) ==> (r as int) < lcores@.len()
            && lcores@[r as int],
        !(exists|i: int| 0 <= i < lcores@.len() && lcores@[i]) ==> r == 0,
{
    let n = lcores.len();
    let mut i: usize = 0;
    while i < n
        invariant
            0 <= i <= n,
            n == lcores@.len(),
            n <= u32::MAX,
            forall|k: int| 0 <= k < i ==> !lcores@[k],
        decreases n - i,
    {
        if lcores[i] {
            return i as u32;
        }
        i += 1;
    }
    0
}

} // verus!
