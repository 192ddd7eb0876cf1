use bop::audit::{calculate_score, Finding, Severity};
use bop::brightness::{dim, u64_to_string};
use bop::config::BrightnessConfig;
use bop::detect::HardwareInfo;
use bop::fs::SysfsRoot;

#[test]
fn test_score_calculation() {
    // No findings: a perfect score.
    assert_eq!(calculate_score(&vec![]), 100);

    // A single finding at full weight wipes the score out.
    let findings = vec![Finding::new(Severity::High, "Test", "test".to_string()).weight(10)];
    assert_eq!(calculate_score(&findings), 0);

    // Half the possible weight halves the score.
    let findings = vec![
        Finding::new(Severity::High, "Test", "test".to_string()).weight(8),
        Finding::new(Severity::Low, "Test", "test".to_string()).weight(2),
    ];
    assert_eq!(calculate_score(&findings), 50);

    // Rounding lands on the nearest point: one of ten weights over three
    // findings is a penalty of one thirtieth.
    let findings = vec![
        Finding::new(Severity::Low, "Test", "test".to_string()).weight(1),
        Finding::new(Severity::Low, "Test", "test".to_string()).weight(0),
        Finding::new(Severity::Low, "Test", "test".to_string()).weight(0),
    ];
    assert_eq!(calculate_score(&findings), 97);
}

fn cmdline_fixture(cmdline: &str) -> SysfsRoot {
    let mut fs = SysfsRoot::new("");
    fs.write("proc/cmdline", cmdline).unwrap();
    fs.write("sys/class/drm/card0/device/vendor", "0x1002\n").unwrap();
    fs
}

#[test]
fn test_audit_flags_missing_ec_wakeup_param() {
    let fs = cmdline_fixture("root=UUID=abc rw\n");
    let hw = HardwareInfo::detect(&fs);
    let findings = bop::audit::kernel_params::check(&hw);
    let f = findings
        .iter()
        .find(|f| f.description.contains("EC wakeup"))
        .expect("missing acpi.ec_no_wakeup should be flagged");
    assert_eq!(f.severity, Severity::High);
    assert_eq!(f.weight, 9);
    assert_eq!(f.recommended_value, "acpi.ec_no_wakeup=1");
}

#[test]
fn test_audit_nvme_apst_disabled() {
    let fs = cmdline_fixture("root=UUID=abc rw nvme_core.default_ps_max_latency_us=0\n");
    let hw = HardwareInfo::detect(&fs);
    let findings = bop::audit::kernel_params::check(&hw);
    let f = findings
        .iter()
        .find(|f| f.description.contains("NVMe APST disabled"))
        .expect("disabled APST should be flagged");
    assert_eq!(f.severity, Severity::Medium);
    assert!(f.current_value.contains("nvme_core.default_ps_max_latency_us=0"));
}

#[test]
fn test_audit_nmi_watchdog_enabled() {
    let mut fs = SysfsRoot::new("");
    fs.write("proc/sys/kernel/nmi_watchdog", "1\n").unwrap();
    let findings = bop::audit::sysctl::check(&fs);
    let f = findings
        .iter()
        .find(|f| f.path.as_deref() == Some("/proc/sys/kernel/nmi_watchdog"))
        .expect("an enabled NMI watchdog should be flagged");
    assert_eq!(f.severity, Severity::Medium);
    assert_eq!(f.current_value, "1");
    assert_eq!(f.recommended_value, "0");
    assert_eq!(f.weight, 4);
}

#[test]
fn test_audit_dirty_writeback_low() {
    let mut fs = SysfsRoot::new("");
    fs.write("proc/sys/vm/dirty_writeback_centisecs", "500\n").unwrap();
    let findings = bop::audit::sysctl::check(&fs);
    let f = findings
        .iter()
        .find(|f| f.path.as_deref() == Some("/proc/sys/vm/dirty_writeback_centisecs"))
        .expect("a short writeback interval should be flagged");
    assert_eq!(f.severity, Severity::Low);
    assert_eq!(f.current_value, "500");
    assert_eq!(f.recommended_value, "1500");
    assert_eq!(f.weight, 2);
}

#[test]
fn test_audit_amd_pstate_active_mode() {
    let mut fs = SysfsRoot::new("");
    fs.write("sys/devices/system/cpu/cpu0/cpufreq/scaling_driver", "amd-pstate-epp\n").unwrap();
    fs.write("sys/devices/system/cpu/amd_pstate/status", "active\n").unwrap();
    let hw = HardwareInfo::detect(&fs);
    assert_eq!(hw.cpu.amd_pstate_mode.as_deref(), Some("active"));

    let findings = bop::audit::cpu_power::check(&hw);
    let f = findings
        .iter()
        .find(|f| f.description.contains("amd-pstate in active mode"))
        .expect("active mode should be noted");
    assert_eq!(f.severity, Severity::Info);
    assert_eq!(f.weight, 0);
    assert_eq!(f.current_value, "active");
    assert!(f.impact.contains("1-2W"));
}

#[test]
fn test_audit_amd_pstate_guided_no_finding() {
    let mut fs = SysfsRoot::new("");
    fs.write("sys/devices/system/cpu/cpu0/cpufreq/scaling_driver", "amd-pstate-epp\n").unwrap();
    fs.write("sys/devices/system/cpu/amd_pstate/status", "guided\n").unwrap();
    let hw = HardwareInfo::detect(&fs);
    assert_eq!(hw.cpu.amd_pstate_mode.as_deref(), Some("guided"));

    let findings = bop::audit::cpu_power::check(&hw);
    assert!(
        !findings.iter().any(|f| f.description.contains("amd-pstate in active mode")),
        "guided mode earns no finding"
    );
}

#[test]
fn test_audit_psr_disabled() {
    let fs = cmdline_fixture("root=UUID=abc rw amdgpu.dcdebugmask=0x10\n");
    let hw = HardwareInfo::detect(&fs);
    let findings = bop::audit::display::check(&hw, &fs);
    let f = findings
        .iter()
        .find(|f| f.description.contains("Panel Self-Refresh"))
        .expect("a set debug mask should be noted");
    assert_eq!(f.severity, Severity::Info);
    assert_eq!(f.weight, 0);
    assert_eq!(f.current_value, "0x10");
    assert!(f.impact.contains("0.5-1.5W"));
}

#[test]
fn test_audit_psr_not_flagged_without_dcdebugmask() {
    let fs = cmdline_fixture("root=UUID=abc rw\n");
    let hw = HardwareInfo::detect(&fs);
    let findings = bop::audit::display::check(&hw, &fs);
    assert!(!findings.iter().any(|f| f.description.contains("Panel Self-Refresh")));
}

#[test]
fn test_audit_display_refresh_rate_suggestion() {
    let mut fs = cmdline_fixture("root=UUID=abc rw\n");
    fs.write("sys/class/drm/card0-eDP-1/status", "connected\n").unwrap();
    let hw = HardwareInfo::detect(&fs);
    let findings = bop::audit::display::check(&hw, &fs);
    let f = findings
        .iter()
        .find(|f| f.description.contains("refresh rate"))
        .expect("a connected internal panel earns the refresh-rate hint");
    assert_eq!(f.severity, Severity::Info);
    assert_eq!(f.weight, 0);
    assert!(f.impact.contains("1W"));
}

#[test]
fn test_mains_online() {
    let mut fs = SysfsRoot::new("");
    fs.write("sys/class/power_supply/ACAD/type", "Mains\n").unwrap();
    fs.write("sys/class/power_supply/ACAD/online", "1\n").unwrap();
    let ac = bop::detect::ac::AcInfo::detect(&fs);
    assert!(ac.found);
    assert!(ac.online);
    assert!(ac.is_on_ac());
    assert!(!ac.is_on_battery());
    assert_eq!(ac.supply_name.as_deref(), Some("ACAD"));
}

#[test]
fn test_mains_offline() {
    let mut fs = SysfsRoot::new("");
    fs.write("sys/class/power_supply/ACAD/type", "Mains\n").unwrap();
    fs.write("sys/class/power_supply/ACAD/online", "0\n").unwrap();
    let ac = bop::detect::ac::AcInfo::detect(&fs);
    assert!(ac.found);
    assert!(!ac.online);
    assert!(!ac.is_on_ac());
    assert!(ac.is_on_battery());
}

#[test]
fn test_no_adapter() {
    let mut fs = SysfsRoot::new("");
    fs.add_dir("sys/class/power_supply");
    let ac = bop::detect::ac::AcInfo::detect(&fs);
    assert!(!ac.found);
    assert!(!ac.is_on_ac());
    assert!(!ac.is_on_battery());
}

#[test]
fn test_alternate_names() {
    for name in ["ADP1", "AC0", "AC"] {
        let mut fs = SysfsRoot::new("");
        fs.write(&format!("sys/class/power_supply/{}/type", name), "Mains\n").unwrap();
        fs.write(&format!("sys/class/power_supply/{}/online", name), "1\n").unwrap();
        let ac = bop::detect::ac::AcInfo::detect(&fs);
        assert!(ac.found, "should detect adapter named {}", name);
        assert!(ac.is_on_ac());
        assert_eq!(ac.supply_name.as_deref(), Some(name));
    }
}

#[test]
fn test_battery_only_no_mains() {
    let mut fs = SysfsRoot::new("");
    fs.write("sys/class/power_supply/BAT0/type", "Battery\n").unwrap();
    let ac = bop::detect::ac::AcInfo::detect(&fs);
    assert!(!ac.found);
    assert!(!ac.is_on_ac());
    assert!(!ac.is_on_battery());
}

#[test]
fn test_dim_calculates_correctly() {
    let mut fs = SysfsRoot::new("");
    fs.write("sys/class/backlight/amdgpu_bl1/brightness", "1000\n").unwrap();
    fs.write("sys/class/backlight/amdgpu_bl1/max_brightness", "1000\n").unwrap();
    let config = BrightnessConfig { auto_dim: true, dim_percent: 60 };

    let result = dim(&config, &mut fs).unwrap();
    assert_eq!(result, Some(1000));
    assert_eq!(
        fs.read("sys/class/backlight/amdgpu_bl1/brightness").unwrap(),
        "600"
    );
}

#[test]
fn test_dim_returns_none_when_auto_dim_disabled() {
    let mut fs = SysfsRoot::new("");
    fs.write("sys/class/backlight/amdgpu_bl1/brightness", "1000\n").unwrap();
    fs.write("sys/class/backlight/amdgpu_bl1/max_brightness", "1000\n").unwrap();
    let config = BrightnessConfig { auto_dim: false, dim_percent: 60 };
    assert_eq!(dim(&config, &mut fs).unwrap(), None);
}

#[test]
fn test_dim_returns_none_when_no_backlight() {
    let mut fs = SysfsRoot::new("");
    fs.add_dir("sys/class/backlight");
    let config = BrightnessConfig { auto_dim: true, dim_percent: 60 };
    assert_eq!(dim(&config, &mut fs).unwrap(), None);
}

#[test]
fn test_dim_never_goes_to_zero() {
    let mut fs = SysfsRoot::new("");
    fs.write("sys/class/backlight/amdgpu_bl1/brightness", "1\n").unwrap();
    fs.write("sys/class/backlight/amdgpu_bl1/max_brightness", "1000\n").unwrap();
    let config = BrightnessConfig { auto_dim: true, dim_percent: 1 };
    // one percent of one clamps to one, which is no dimmer than the
    // current level, so nothing happens
    assert_eq!(dim(&config, &mut fs).unwrap(), None);
}

#[test]
fn test_restore_writes_original_value() {
    let mut fs = SysfsRoot::new("");
    fs.write("sys/class/backlight/amdgpu_bl1/brightness", "600\n").unwrap();
    fs.write("sys/class/backlight/amdgpu_bl1/max_brightness", "1000\n").unwrap();

    bop::brightness::restore(1000, &mut fs).unwrap();
    assert_eq!(
        fs.read("sys/class/backlight/amdgpu_bl1/brightness").unwrap(),
        "1000"
    );
}

#[test]
fn test_numeral_round_trip() {
    assert_eq!(u64_to_string(0), "0");
    assert_eq!(u64_to_string(7), "7");
    assert_eq!(u64_to_string(600), "600");
    assert_eq!(u64_to_string(18446744073709551615), "18446744073709551615");
}

#[test]
fn test_error_variants_reachable() {
    // a read of a missing file is a read error
    let fs = SysfsRoot::new("");
    match fs.read("missing") {
        Err(bop::error::Error::SysfsRead { path }) => assert_eq!(path, "/missing"),
        other => panic!("expected a read error, got {:?}", other),
    }
    // a write to a protected path is a write error
    let mut fs = SysfsRoot::new("");
    fs.deny_writes("locked");
    match fs.write("locked", "x") {
        Err(bop::error::Error::SysfsWrite { path }) => assert_eq!(path, "/locked"),
        other => panic!("expected a write error, got {:?}", other),
    }
    // an unparsable value is a parse error
    let mut fs = SysfsRoot::new("");
    fs.write("value", "abc\n").unwrap();
    assert!(matches!(
        fs.read_parse_u64("value"),
        Err(bop::error::Error::Parse { .. })
    ));
    // no bootloader at all is a bootloader error
    assert!(matches!(
        bop::kernel_params::detect_bootloader(&SysfsRoot::new("")),
        Err(bop::error::Error::Bootloader(_))
    ));
}

#[test]
fn test_snapshot_round_trip() {
    let mut fs = SysfsRoot::new("");
    fs.write("sys/class/dmi/id/board_vendor", "TestVendor\n").unwrap();
    fs.write("sys/class/dmi/id/product_name", "TestLaptop\n").unwrap();
    fs.write("sys/class/power_supply/BAT0/type", "Battery\n").unwrap();
    fs.write("sys/class/power_supply/BAT0/present", "1\n").unwrap();
    fs.write("sys/class/power_supply/BAT0/capacity", "85\n").unwrap();
    fs.write("proc/cpuinfo", "processor\t: 0\nvendor_id\t: GenuineIntel\n").unwrap();
    fs.write("proc/cmdline", "\n").unwrap();

    let snap = bop::snapshot::Snapshot::capture(&fs);
    assert!(snap
        .files
        .iter()
        .any(|f| f.path == "sys/class/dmi/id/board_vendor" && f.content == "TestVendor"));
    assert!(snap
        .files
        .iter()
        .any(|f| f.path == "sys/class/power_supply/BAT0/capacity" && f.content == "85"));

    let replayed = snap.materialize("");
    let hw = HardwareInfo::detect(&replayed);
    assert_eq!(hw.dmi.board_vendor.as_deref(), Some("TestVendor"));
    assert_eq!(hw.dmi.product_name.as_deref(), Some("TestLaptop"));
    assert!(hw.battery.present);
    assert_eq!(hw.battery.capacity_percent, Some(85));
}

#[test]
fn test_dim_returns_none_when_max_brightness_zero() {
    let mut fs = SysfsRoot::new("");
    fs.write("sys/class/backlight/amdgpu_bl1/brightness", "100\n").unwrap();
    fs.write("sys/class/backlight/amdgpu_bl1/max_brightness", "0\n").unwrap();
    let config = BrightnessConfig { auto_dim: true, dim_percent: 60 };
    assert_eq!(dim(&config, &mut fs).unwrap(), None);
}

#[test]
fn test_dim_returns_none_when_target_ge_current() {
    let mut fs = SysfsRoot::new("");
    fs.write("sys/class/backlight/amdgpu_bl1/brightness", "50\n").unwrap();
    fs.write("sys/class/backlight/amdgpu_bl1/max_brightness", "1000\n").unwrap();
    let config = BrightnessConfig { auto_dim: true, dim_percent: 100 };
    assert_eq!(dim(&config, &mut fs).unwrap(), None);
}

#[test]
fn test_dim_returns_none_when_no_backlight_dir() {
    let mut fs = SysfsRoot::new("");
    let config = BrightnessConfig { auto_dim: true, dim_percent: 60 };
    assert_eq!(dim(&config, &mut fs).unwrap(), None);
}

#[test]
fn test_restore_no_backlight_is_ok() {
    let mut fs = SysfsRoot::new("");
    assert!(bop::brightness::restore(1000, &mut fs).is_ok());
}
