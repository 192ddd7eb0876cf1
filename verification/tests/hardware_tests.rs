use bop::apply::build_plan;
use bop::detect::HardwareInfo;
use bop::fs::SysfsRoot;
use bop::profile::{detect_profile, Profile};
use bop::wake::{scan_controllers, should_disable_in_scan, should_enable_in_scan};

/// A machine in its pre-apply state: a Framework Laptop 16 on AMD with
/// suboptimal power settings.
fn framework16_fixture() -> SysfsRoot {
    let mut fs = SysfsRoot::new("");
    fs.write("sys/class/dmi/id/board_vendor", "Framework\n").unwrap();
    fs.write("sys/class/dmi/id/board_name", "FRANMDCP16\n").unwrap();
    fs.write("sys/class/dmi/id/product_name", "Laptop 16 (AMD Ryzen 7040 Series)\n").unwrap();
    fs.write("sys/class/dmi/id/product_family", "Framework Laptop\n").unwrap();
    fs.write("sys/class/dmi/id/bios_version", "03.05\n").unwrap();

    fs.write("sys/devices/system/cpu/cpufreq/boost", "1\n").unwrap();
    fs.write(
        "proc/cpuinfo",
        "processor\t: 0\nvendor_id\t: AuthenticAMD\ncpu family\t: 25\nmodel\t\t: 116\nmodel name\t: AMD Ryzen 9 7940HS w/ Radeon 780M Graphics\n\n",
    )
    .unwrap();
    for i in 0..16 {
        let base = format!("sys/devices/system/cpu/cpu{}/cpufreq", i);
        fs.write(&format!("{}/scaling_driver", base), "amd-pstate-epp\n").unwrap();
        fs.write(&format!("{}/scaling_governor", base), "powersave\n").unwrap();
        fs.write(
            &format!("{}/energy_performance_preference", base),
            "balance_performance\n",
        )
        .unwrap();
        fs.write(
            &format!("{}/energy_performance_available_preferences", base),
            "default performance balance_performance balance_power power\n",
        )
        .unwrap();
    }

    fs.write("sys/class/drm/card0/device/vendor", "0x1002\n").unwrap();
    fs.write("sys/class/drm/card0/device/device", "0x15bf\n").unwrap();
    fs.write(
        "sys/class/drm/card0/device/power_dpm_force_performance_level",
        "auto\n",
    )
    .unwrap();
    fs.write("sys/module/amdgpu/parameters/abmlevel", "0\n").unwrap();

    fs.write("proc/cmdline", "initrd=\\initramfs-linux.img root=UUID=abc123 rw\n").unwrap();

    fs.write("sys/firmware/acpi/platform_profile", "performance\n").unwrap();
    fs.write(
        "sys/firmware/acpi/platform_profile_choices",
        "low-power balanced performance\n",
    )
    .unwrap();
    fs.write("sys/power/state", "mem disk\n").unwrap();
    fs.write("sys/power/mem_sleep", "[s2idle] deep\n").unwrap();

    fs.write("sys/class/power_supply/BAT0/type", "Battery\n").unwrap();
    fs.write("sys/class/power_supply/BAT0/present", "1\n").unwrap();
    fs.write("sys/class/power_supply/BAT0/status", "Discharging\n").unwrap();
    fs.write("sys/class/power_supply/BAT0/capacity", "75\n").unwrap();
    fs.write("sys/class/power_supply/BAT0/energy_now", "41000000\n").unwrap();
    fs.write("sys/class/power_supply/BAT0/energy_full", "54600000\n").unwrap();
    fs.write("sys/class/power_supply/BAT0/energy_full_design", "61000000\n").unwrap();
    fs.write("sys/class/power_supply/BAT0/power_now", "7500000\n").unwrap();
    fs.write("sys/class/power_supply/BAT0/voltage_now", "15800000\n").unwrap();
    fs.write("sys/class/power_supply/BAT0/cycle_count", "120\n").unwrap();

    fs.write(
        "sys/module/pcie_aspm/parameters/policy",
        "default [default] performance powersave powersupersave\n",
    )
    .unwrap();
    for (addr, control, class) in [
        ("0000:00:00.0", "on", "0x060000"),
        ("0000:00:02.2", "on", "0x060400"),
        ("0000:c1:00.3", "auto", "0x0c0330"),
        ("0000:c1:00.4", "on", "0x0c0330"),
        ("0000:c3:00.3", "auto", "0x0c0330"),
    ] {
        let base = format!("sys/bus/pci/devices/{}", addr);
        fs.write(&format!("{}/power/control", base), &format!("{}\n", control)).unwrap();
        fs.write(&format!("{}/power/runtime_status", base), "active\n").unwrap();
        fs.write(&format!("{}/vendor", base), "0x1022\n").unwrap();
        fs.write(&format!("{}/device", base), "0x14e8\n").unwrap();
        fs.write(&format!("{}/class", base), &format!("{}\n", class)).unwrap();
    }

    fs.add_dir("sys/class/net/wlan0/wireless");
    fs.add_dir("sys/class/net/wlan0/device");

    fs.write("sys/module/snd_hda_intel/parameters/power_save", "1\n").unwrap();
    fs.write("sys/module/snd_hda_intel/parameters/power_save_controller", "Y\n").unwrap();

    fs.write(
        "proc/acpi/wakeup",
        "XHC0\tS3\t*enabled\tpci:0000:c1:00.3\nXHC1\tS3\t*enabled\tpci:0000:c1:00.4\nXHC3\tS3\t*enabled\tpci:0000:c3:00.3\nGPP6\tS4\t*enabled\tpci:0000:00:02.2\nNHI0\tS4\t*enabled\tpci:0000:c3:00.5\nLID0\tS4\t*enabled\tplatform:PNP0C0D:00\nPBTN\tS4\t*enabled\tplatform:PNP0C0C:00\nSLPB\tS4\t*enabled\tplatform:PNP0C0E:00\n",
    )
    .unwrap();

    fs
}

#[test]
fn test_framework16_detection() {
    let fs = framework16_fixture();
    let hw = HardwareInfo::detect(&fs);

    assert!(hw.dmi.is_framework());
    assert!(hw.dmi.is_framework_16());
    assert!(hw.cpu.is_amd());
    assert!(hw.cpu.is_amd_pstate());
    assert_eq!(hw.cpu.family, Some(25));
    assert_eq!(hw.cpu.model, Some(116));
    assert_eq!(hw.cpu.online_cpus, 16);
    assert_eq!(hw.cpu.epp.as_deref(), Some("balance_performance"));
    assert_eq!(hw.platform.platform_profile.as_deref(), Some("performance"));
    assert!(hw.battery.present);
    assert!(hw.battery.is_discharging());
    assert!(hw.gpu.is_amd());
    assert_eq!(hw.pci.aspm_policy.as_deref(), Some("default"));
}

#[test]
fn test_framework16_profile_matches() {
    let fs = framework16_fixture();
    let hw = HardwareInfo::detect(&fs);
    let profile = detect_profile(&hw);
    assert!(profile.is_some());
    assert_eq!(
        profile.unwrap().name(),
        "Framework Laptop 16 (AMD Ryzen 7040 Series)"
    );
}

#[test]
fn test_generic_laptop_does_not_override_framework16() {
    let fs = framework16_fixture();
    let hw = HardwareInfo::detect(&fs);
    assert_eq!(detect_profile(&hw), Some(Profile::Framework16Amd));
}

#[test]
fn test_no_profile_without_battery() {
    let mut fs = SysfsRoot::new("");
    fs.write("sys/class/dmi/id/board_vendor", "ASUS\n").unwrap();
    fs.write("proc/cmdline", "\n").unwrap();
    fs.add_dir("sys/class/power_supply");
    let hw = HardwareInfo::detect(&fs);
    assert!(!hw.battery.present);
    assert!(detect_profile(&hw).is_none());
}

#[test]
fn test_kernel_param_detection() {
    let fs = framework16_fixture();
    let hw = HardwareInfo::detect(&fs);

    assert!(!hw.has_kernel_param("acpi.ec_no_wakeup"));
    assert!(!hw.has_kernel_param("rtc_cmos.use_acpi_alarm"));
    assert!(!hw.has_kernel_param("amdgpu.abmlevel"));
    assert!(hw.has_kernel_param("root"));
    assert_eq!(hw.kernel_param_value("root"), Some("UUID=abc123".to_string()));
}

#[test]
fn test_build_plan_updates_wrong_kernel_param_values() {
    let mut fs = framework16_fixture();
    fs.write(
        "proc/cmdline",
        "initrd=\\initramfs-linux.img root=UUID=abc123 rw acpi.ec_no_wakeup=0 rtc_cmos.use_acpi_alarm=0 amdgpu.abmlevel=1\n",
    )
    .unwrap();

    let hw = HardwareInfo::detect(&fs);
    let plan = build_plan(&hw, &fs, &vec![]);

    assert!(plan.kernel_params.contains(&"acpi.ec_no_wakeup=1".to_string()));
    assert!(plan.kernel_params.contains(&"rtc_cmos.use_acpi_alarm=1".to_string()));
    assert!(plan.kernel_params.contains(&"amdgpu.abmlevel=3".to_string()));
}

#[test]
fn test_build_plan_skips_abmlevel_at_or_above_3() {
    let mut fs = framework16_fixture();
    fs.write(
        "proc/cmdline",
        "root=UUID=abc rw acpi.ec_no_wakeup=1 rtc_cmos.use_acpi_alarm=1 amdgpu.abmlevel=3\n",
    )
    .unwrap();

    let hw = HardwareInfo::detect(&fs);
    let plan = build_plan(&hw, &fs, &vec![]);

    assert!(
        !plan.kernel_params.iter().any(|p| p.starts_with("amdgpu.abmlevel")),
        "apply should not touch abmlevel when it is already at least 3"
    );
}

#[test]
fn test_build_plan_epp_and_profile_and_aspm() {
    let fs = framework16_fixture();
    let hw = HardwareInfo::detect(&fs);
    let plan = build_plan(&hw, &fs, &vec![]);

    assert!(plan.sysfs_writes.iter().any(|w| {
        w.path.contains("energy_performance_preference") && w.value == "balance_power"
    }));
    assert!(plan
        .sysfs_writes
        .iter()
        .any(|w| w.path == "/sys/firmware/acpi/platform_profile" && w.value == "low-power"));
    assert!(plan.sysfs_writes.iter().any(|w| {
        w.path == "/sys/module/pcie_aspm/parameters/policy" && w.value == "powersupersave"
    }));
    // one EPP write per core, in listing order
    let epp_writes: Vec<&str> = plan
        .sysfs_writes
        .iter()
        .filter(|w| w.path.contains("energy_performance_preference"))
        .map(|w| w.path.as_str())
        .collect();
    assert_eq!(epp_writes.len(), 16);
    assert!(epp_writes[0].contains("cpu0/"));
}

#[test]
fn test_apply_plan_only_disables_usb_wake_sources() {
    let fs = framework16_fixture();
    let hw = HardwareInfo::detect(&fs);
    let plan = build_plan(&hw, &fs, &vec![]);

    assert!(plan.acpi_wakeup_disable.contains(&"XHC1".to_string()));
    assert!(plan.acpi_wakeup_disable.contains(&"XHC3".to_string()));
    assert!(!plan.acpi_wakeup_disable.contains(&"XHC0".to_string()));
    assert!(!plan.acpi_wakeup_disable.contains(&"GPP6".to_string()));
    assert!(!plan.acpi_wakeup_disable.contains(&"NHI0".to_string()));
    assert!(!plan.acpi_wakeup_disable.contains(&"LID0".to_string()));
    assert!(!plan.acpi_wakeup_disable.contains(&"PBTN".to_string()));
    assert!(!plan.acpi_wakeup_disable.contains(&"SLPB".to_string()));
}

#[test]
fn test_apply_plan_does_not_disable_usb4_nhi_wake_source() {
    let mut fs = framework16_fixture();
    let base = "sys/bus/pci/devices/0000:c3:00.5";
    fs.write(&format!("{}/power/control", base), "auto\n").unwrap();
    fs.write(&format!("{}/power/runtime_status", base), "active\n").unwrap();
    fs.write(&format!("{}/vendor", base), "0x8086\n").unwrap();
    fs.write(&format!("{}/device", base), "0x0b26\n").unwrap();
    fs.write(&format!("{}/class", base), "0x0c0340\n").unwrap();

    let hw = HardwareInfo::detect(&fs);
    let plan = build_plan(&hw, &fs, &vec![]);

    assert!(plan.acpi_wakeup_disable.contains(&"XHC1".to_string()));
    assert!(!plan.acpi_wakeup_disable.contains(&"NHI0".to_string()));
}

#[test]
fn test_wakeup_auto_scan_decisions() {
    // XHC1 is enabled with nothing behind it; XHC2 is disabled but has a
    // device attached; GPP6 and PBTN are not USB controllers; XHC0 stays.
    let mut fs = SysfsRoot::new("");
    fs.write(
        "proc/acpi/wakeup",
        "XHC0\tS3\t*enabled\tpci:0000:c1:00.3\nXHC1\tS3\t*enabled\tpci:0000:c1:00.4\nXHC2\tS3\t*disabled\tpci:0000:c1:00.5\nGPP6\tS4\t*disabled\tpci:0000:00:02.2\nPBTN\tS4\t*disabled\tplatform:PNP0C0C:00\n",
    )
    .unwrap();
    fs.add_dir("sys/devices/pci0000:00/0000:c1:00.5/usb3");
    fs.add_link(
        "sys/bus/usb/devices/usb3",
        "/sys/devices/pci0000:00/0000:c1:00.5/usb3",
    );
    fs.write(
        "sys/devices/pci0000:00/0000:c1:00.5/usb3/3-1/product",
        "Test Device\n",
    )
    .unwrap();
    fs.add_dir("sys/bus/usb/devices/3-1");

    let controllers = scan_controllers(&fs).unwrap();

    let enable: Vec<&str> = controllers
        .iter()
        .filter(|c| should_enable_in_scan(c))
        .map(|c| c.name.as_str())
        .collect();
    let disable: Vec<&str> = controllers
        .iter()
        .filter(|c| should_disable_in_scan(c))
        .map(|c| c.name.as_str())
        .collect();

    assert_eq!(enable, vec!["XHC2"]);
    assert_eq!(disable, vec!["XHC1"]);
    for name in ["XHC0", "GPP6", "PBTN"] {
        assert!(!enable.contains(&name));
        assert!(!disable.contains(&name));
    }
}

#[test]
fn scan_enable_filter_excludes_non_usb_wake_sources() {
    let mut fs = SysfsRoot::new("");
    fs.write(
        "proc/acpi/wakeup",
        "XHC0\tS3\t*enabled\tpci:0000:c1:00.3\nXHC2\tS3\t*disabled\tpci:0000:c1:00.5\nGPP6\tS4\t*disabled\tpci:0000:00:02.2\nPBTN\tS4\t*disabled\tplatform:PNP0C0C:00\n",
    )
    .unwrap();
    fs.add_dir("sys/devices/pci0000:00/0000:c1:00.5/usb3");
    fs.add_link(
        "sys/bus/usb/devices/usb3",
        "/sys/devices/pci0000:00/0000:c1:00.5/usb3",
    );
    fs.write(
        "sys/devices/pci0000:00/0000:c1:00.5/usb3/3-1/product",
        "Test Device\n",
    )
    .unwrap();
    fs.add_dir("sys/bus/usb/devices/3-1");

    let controllers = scan_controllers(&fs).unwrap();
    let enable_candidates: Vec<&str> = controllers
        .iter()
        .filter(|c| should_enable_in_scan(c))
        .map(|c| c.name.as_str())
        .collect();
    assert_eq!(enable_candidates, vec!["XHC2"]);

    for source in ["GPP6", "PBTN"] {
        let ctrl = controllers
            .iter()
            .find(|c| c.name == source)
            .expect("fixture source should be present");
        assert!(!ctrl.enabled);
        assert!(!should_enable_in_scan(ctrl));
    }
}

#[test]
fn scan_disable_filter_excludes_non_usb_wake_sources() {
    let mut fs = SysfsRoot::new("");
    fs.add_dir("sys/bus/usb/devices");
    fs.write(
        "proc/acpi/wakeup",
        "XHC0\tS3\t*enabled\tpci:0000:c1:00.3\nXHC1\tS3\t*enabled\tpci:0000:c1:00.4\nGPP6\tS4\t*enabled\tpci:0000:00:02.2\nNHI0\tS4\t*enabled\tpci:0000:c3:00.5\nLID0\tS4\t*enabled\tplatform:PNP0C0D:00\nPBTN\tS4\t*enabled\tplatform:PNP0C0C:00\nSLPB\tS3\t*enabled\tplatform:PNP0C0E:00\n",
    )
    .unwrap();

    let controllers = scan_controllers(&fs).unwrap();
    let disable_candidates: Vec<&str> = controllers
        .iter()
        .filter(|c| should_disable_in_scan(c))
        .map(|c| c.name.as_str())
        .collect();
    assert_eq!(disable_candidates, vec!["XHC1"]);

    for source in ["GPP6", "NHI0", "LID0", "PBTN", "SLPB"] {
        let ctrl = controllers
            .iter()
            .find(|c| c.name == source)
            .expect("fixture source should be present");
        assert!(ctrl.enabled);
        assert!(!should_disable_in_scan(ctrl));
    }
}
