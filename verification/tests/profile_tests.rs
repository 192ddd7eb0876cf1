use bop::audit::{calculate_score, Severity};
use bop::detect::HardwareInfo;
use bop::fs::SysfsRoot;
use bop::profile::{detect_profile, Profile};

/// A generic laptop on an Intel part with suboptimal settings.
fn generic_laptop_fixture() -> SysfsRoot {
    let mut fs = SysfsRoot::new("");
    fs.write("sys/class/dmi/id/board_vendor", "LENOVO\n").unwrap();
    fs.write("sys/class/dmi/id/board_name", "21HMCTO1WW\n").unwrap();
    fs.write("sys/class/dmi/id/product_name", "ThinkPad X1 Carbon Gen 11\n").unwrap();
    fs.write(
        "proc/cpuinfo",
        "processor\t: 0\nvendor_id\t: GenuineIntel\ncpu family\t: 6\nmodel\t\t: 186\nmodel name\t: 13th Gen Intel(R) Core(TM) i7-1365U\n\n",
    )
    .unwrap();
    fs.write("proc/cmdline", "\n").unwrap();
    for i in 0..4 {
        let base = format!("sys/devices/system/cpu/cpu{}/cpufreq", i);
        fs.write(&format!("{}/scaling_driver", base), "intel_pstate\n").unwrap();
        fs.write(&format!("{}/scaling_governor", base), "powersave\n").unwrap();
        fs.write(
            &format!("{}/energy_performance_preference", base),
            "balance_performance\n",
        )
        .unwrap();
    }
    fs.write("sys/class/power_supply/BAT0/type", "Battery\n").unwrap();
    fs.write("sys/class/power_supply/BAT0/present", "1\n").unwrap();
    fs.write("sys/class/power_supply/BAT0/status", "Discharging\n").unwrap();
    fs.write("sys/class/power_supply/BAT0/capacity", "75\n").unwrap();
    fs.write("sys/firmware/acpi/platform_profile", "balanced\n").unwrap();
    fs.write(
        "sys/module/pcie_aspm/parameters/policy",
        "[default] performance powersave powersupersave\n",
    )
    .unwrap();
    fs.write("sys/bus/pci/devices/0000:00:1f.3/power/control", "on\n").unwrap();
    fs.write("sys/bus/pci/devices/0000:00:1f.3/class", "0x040300\n").unwrap();
    fs.write("proc/sys/kernel/nmi_watchdog", "1\n").unwrap();
    fs.write("proc/sys/vm/dirty_writeback_centisecs", "500\n").unwrap();
    fs
}

#[test]
fn test_generic_laptop_profile_matches() {
    let fs = generic_laptop_fixture();
    let hw = HardwareInfo::detect(&fs);
    let matched = detect_profile(&hw);
    assert_eq!(matched, Some(Profile::GenericLaptop));
    assert_eq!(matched.unwrap().name(), "Generic Linux Laptop");
}

#[test]
fn test_generic_laptop_audit_runs_generic_checks() {
    let fs = generic_laptop_fixture();
    let hw = HardwareInfo::detect(&fs);

    let mut findings = bop::audit::cpu_power::check(&hw);
    findings.extend(bop::audit::pci_power::check(&hw));
    findings.extend(bop::audit::sysctl::check(&fs));

    assert!(findings.iter().any(|f| f.description.contains("EPP")));
    assert!(findings.iter().any(|f| f.description.contains("ASPM")));
    assert!(findings.iter().any(|f| f.description.contains("NMI")));
    assert!(findings.iter().any(|f| f.description.contains("writeback")));
}

#[test]
fn test_audit_flags_missing_amd_pstate() {
    let mut fs = SysfsRoot::new("");
    fs.write(
        "proc/cpuinfo",
        "processor\t: 0\nvendor_id\t: AuthenticAMD\ncpu family\t: 25\nmodel\t\t: 116\n",
    )
    .unwrap();
    fs.write("sys/devices/system/cpu/cpu0/cpufreq/scaling_driver", "acpi-cpufreq\n").unwrap();
    let hw = HardwareInfo::detect(&fs);

    assert!(!hw.cpu.is_amd_pstate());
    assert_eq!(hw.cpu.scaling_driver.as_deref(), Some("acpi-cpufreq"));

    let findings = bop::audit::cpu_power::check(&hw);
    let pstate_finding = findings
        .iter()
        .find(|f| f.severity == Severity::High && f.description.contains("EPP unavailable"))
        .expect("a HIGH finding about the missing amd-pstate driver");
    assert_eq!(pstate_finding.recommended_value, "amd-pstate-epp");
    assert!(pstate_finding.description.contains("acpi-cpufreq"));
}

#[test]
fn test_audit_finds_issues() {
    // The suboptimal generic fixture earns a low score across the
    // hardware-only rules.
    let fs = generic_laptop_fixture();
    let hw = HardwareInfo::detect(&fs);

    let mut all = bop::audit::kernel_params::check(&hw);
    all.extend(bop::audit::cpu_power::check(&hw));
    all.extend(bop::audit::pci_power::check(&hw));
    assert!(all.len() >= 3);

    let score = calculate_score(&all);
    assert!(score < 70, "expected a low score with many issues, got {}", score);
}

#[test]
fn test_battery_info() {
    let mut fs = SysfsRoot::new("");
    fs.write("sys/class/power_supply/BAT0/type", "Battery\n").unwrap();
    fs.write("sys/class/power_supply/BAT0/present", "1\n").unwrap();
    fs.write("sys/class/power_supply/BAT0/status", "Discharging\n").unwrap();
    fs.write("sys/class/power_supply/BAT0/capacity", "75\n").unwrap();
    fs.write("sys/class/power_supply/BAT0/energy_now", "41000000\n").unwrap();
    fs.write("sys/class/power_supply/BAT0/energy_full", "54600000\n").unwrap();
    fs.write("sys/class/power_supply/BAT0/energy_full_design", "61000000\n").unwrap();
    fs.write("sys/class/power_supply/BAT0/power_now", "7500000\n").unwrap();
    fs.write("sys/class/power_supply/BAT0/voltage_now", "15800000\n").unwrap();
    fs.write("sys/class/power_supply/BAT0/cycle_count", "120\n").unwrap();

    let hw = HardwareInfo::detect(&fs);
    assert_eq!(hw.battery.capacity_percent, Some(75));
    assert_eq!(hw.battery.cycle_count, Some(120));
    assert!(hw.battery.is_discharging());

    // the derived figures, computed here from the raw counters
    let watts = hw.battery.power_now_uw.unwrap() as f64 / 1e6;
    assert!((watts - 7.5).abs() < 0.01);
    let energy_wh = hw.battery.energy_now_uwh.unwrap() as f64 / 1e6;
    assert!((energy_wh - 41.0).abs() < 0.01);
    let capacity_wh = hw.battery.energy_full_uwh.unwrap() as f64 / 1e6;
    assert!((capacity_wh - 54.6).abs() < 0.01);
    let health = hw.battery.energy_full_uwh.unwrap() as f64
        / hw.battery.energy_full_design_uwh.unwrap() as f64 * 100.0;
    assert!((health - 89.5).abs() < 0.5);
}

#[test]
fn test_read_optional_missing() {
    let fs = SysfsRoot::new("");
    assert_eq!(fs.read_optional("sys/nonexistent").unwrap(), None);
}

#[test]
fn test_read_write() {
    let mut fs = SysfsRoot::new("");
    fs.write("sys/test/value", "42\n").unwrap();
    assert_eq!(fs.read("sys/test/value").unwrap(), "42");
    assert_eq!(fs.read_parse_u64("sys/test/value").unwrap(), 42);
}

#[test]
fn test_list_dir() {
    let mut fs = SysfsRoot::new("");
    fs.write("sys/devices/b", "\n").unwrap();
    fs.write("sys/devices/a", "\n").unwrap();
    let entries = fs.list_dir("sys/devices").unwrap();
    assert_eq!(entries, vec!["a".to_string(), "b".to_string()]);
}
