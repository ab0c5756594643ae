use dram_bench::{
    detect_zones, energy_delta, energy_unit_exponent, first_set_core, should_terminate,
    CpuPackage, EnergyCounter, EnergyReaderRegistry, EnergyUnit, Error, ZoneKind,
};

#[test]
fn wraparound_delta_is_never_negative() {
    // a 32-bit counter reading 4294967290 and then 10 consumed 15 units
    assert_eq!(energy_delta(4_294_967_290, 10), 15);
    assert_eq!(energy_delta(10, 10), 0);
    assert_eq!(energy_delta(10, 25), 15);
    assert_eq!(energy_delta(0, u32::MAX as u64), u32::MAX as u64);
}

#[test]
fn counter_primes_on_first_sample() {
    let mut c = EnergyCounter::new();
    assert_eq!(c.sample(4_294_967_290, 0), 0);
    assert_eq!(c.total_units(), 0);
    assert_eq!(c.prev_raw(), 4_294_967_290);
    assert_eq!(c.sample(10, 5), 15);
    assert_eq!(c.total_units(), 15);
    assert_eq!(c.prev_raw(), 10);
    assert_eq!(c.time_elapsed(), 5);
    assert_eq!(c.sample(110, 6), 100);
    assert_eq!(c.total_units(), 115);
}

#[test]
fn unit_exponent_comes_from_bits_eight_to_eleven() {
    assert_eq!(energy_unit_exponent(0xA00), 10);
    assert_eq!(energy_unit_exponent(0xF00), 15);
    assert_eq!(energy_unit_exponent(0x0FF), 0);
    assert_eq!(energy_unit_exponent(0x1310), 3);
}

fn intel_pkg(pkg_id: u32, family: u32, model: u32) -> CpuPackage {
    CpuPackage {
        pkg_id,
        vendor_intel: true,
        display_family: family,
        display_model: model,
        core: pkg_id * 8,
        rapl_power_unit: 0xA00,
    }
}

#[test]
fn supported_package_yields_three_zones() {
    let packages = vec![intel_pkg(0, 6, 143)];
    let zones = detect_zones(&packages).unwrap();
    assert_eq!(zones.len(), 3);
    assert_eq!(zones[0].kind, ZoneKind::PowerPlaneZero);
    assert_eq!(zones[0].which, 1593);
    assert_eq!(zones[0].unit, EnergyUnit::InversePowerOfTwo(10));
    assert_eq!(zones[1].kind, ZoneKind::Dram);
    assert_eq!(zones[1].which, 1561);
    assert_eq!(zones[1].unit, EnergyUnit::MicroJoules(61));
    assert_eq!(zones[2].kind, ZoneKind::Package);
    assert_eq!(zones[2].which, 1553);
    assert_eq!(zones[2].unit, EnergyUnit::InversePowerOfTwo(10));
    assert!(zones.iter().all(|z| z.core == 0 && z.pkg == 0));
}

#[test]
fn unsupported_model_yields_no_zones() {
    let packages = vec![intel_pkg(0, 6, 85), intel_pkg(1, 6, 143)];
    let zones = detect_zones(&packages).unwrap();
    assert_eq!(zones.len(), 3);
    assert!(zones.iter().all(|z| z.pkg == 1 && z.core == 8));
}

#[test]
fn non_intel_vendor_is_a_hardware_error() {
    let mut p = intel_pkg(0, 6, 143);
    p.vendor_intel = false;
    assert_eq!(detect_zones(&vec![p]).err(), Some(Error::HardwareAccess));
}

#[test]
fn first_set_core_picks_lowest_enabled() {
    assert_eq!(first_set_core(&vec![false, false, true, true]), 2);
    assert_eq!(first_set_core(&vec![true]), 0);
    assert_eq!(first_set_core(&vec![false, false]), 0);
    assert_eq!(first_set_core(&vec![]), 0);
}

#[test]
fn reader_registry_caches_one_handle_per_package() {
    let mut reg = EnergyReaderRegistry::new();
    assert_eq!(reg.lookup(0), None);
    reg.register(0, 4);
    reg.register(1, 12);
    assert_eq!(reg.lookup(0), Some(4));
    assert_eq!(reg.lookup(1), Some(12));
    assert_eq!(reg.lookup(2), None);
}

#[test]
fn termination_needs_a_limit_and_its_expiry() {
    assert!(!should_terminate(0, 100));
    assert!(!should_terminate(60, 59));
    assert!(should_terminate(60, 60));
    assert!(should_terminate(60, 61));
}
