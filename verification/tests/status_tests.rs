use bop::fs::SysfsRoot;
use bop::journal::{ApplyState, SysfsChange};
use bop::status::{
    check_acpi_wakeup, check_kernel_params, check_sysfs, KernelParamStatus, ServiceStatus,
    StatusReport, SysfsStatus, UnitStatus, WakeupStatus,
};

#[test]
fn test_check_acpi_wakeup_disabled() {
    let content = "XHC0\t  S0\t*enabled   pci:0000:c4:00.3\nXHC1\t  S0\t*disabled  pci:0000:c4:00.4\nXHC2\t  S0\t*disabled  pci:0000:c2:00.0";

    let mut state = ApplyState::default();
    state.acpi_wakeup_toggled = vec!["XHC1".to_string(), "XHC2".to_string()];

    let result = check_acpi_wakeup(&state, content);
    assert_eq!(result.len(), 2);
    assert!(result[0].active);
    assert!(result[1].active);
}

#[test]
fn test_check_acpi_wakeup_drifted() {
    let content = "XHC1\t  S0\t*enabled   pci:0000:c4:00.4";

    let mut state = ApplyState::default();
    state.acpi_wakeup_toggled = vec!["XHC1".to_string()];

    let result = check_acpi_wakeup(&state, content);
    assert_eq!(result.len(), 1);
    assert!(!result[0].active, "XHC1 re-enabled should be detected as drift");
}

#[test]
fn test_check_kernel_params_present() {
    let cmdline =
        "BOOT_IMAGE=/vmlinuz-linux root=UUID=abc ro acpi.ec_no_wakeup=1 rtc_cmos.use_acpi_alarm=1";

    let mut state = ApplyState::default();
    state.kernel_params_added = vec![
        "acpi.ec_no_wakeup=1".to_string(),
        "rtc_cmos.use_acpi_alarm=1".to_string(),
    ];

    let result = check_kernel_params(&state, cmdline);
    assert_eq!(result.len(), 2);
    assert!(result[0].in_cmdline);
    assert!(result[1].in_cmdline);
}

#[test]
fn test_check_kernel_params_pending_reboot() {
    let cmdline = "BOOT_IMAGE=/vmlinuz-linux root=UUID=abc ro";

    let mut state = ApplyState::default();
    state.kernel_params_added = vec!["acpi.ec_no_wakeup=1".to_string()];

    let result = check_kernel_params(&state, cmdline);
    assert_eq!(result.len(), 1);
    assert!(!result[0].in_cmdline);
}

#[test]
fn test_report_counts() {
    let report = StatusReport {
        timestamp: "2026-02-18T00:00:00Z".to_string(),
        sysfs: vec![
            SysfsStatus {
                path: "a".into(),
                expected: "x".into(),
                actual: Some("x".into()),
                active: true,
            },
            SysfsStatus {
                path: "b".into(),
                expected: "y".into(),
                actual: Some("z".into()),
                active: false,
            },
        ],
        acpi_wakeup: vec![WakeupStatus { device: "XHC1".into(), active: true }],
        kernel_params: vec![
            KernelParamStatus { param: "foo=1".into(), in_cmdline: true },
            KernelParamStatus { param: "bar=1".into(), in_cmdline: false },
        ],
        services: vec![],
        systemd_unit: Some(UnitStatus {
            path: "/etc/systemd/system/bop.service".into(),
            exists: true,
        }),
    };

    assert_eq!(report.total_count(), 6);
    assert_eq!(report.active_count(), 4);
    assert_eq!(report.drifted_count(), 2);
}

#[test]
fn test_check_sysfs_active_value() {
    let mut fs = SysfsRoot::new("");
    fs.write("profile", "low-power\n").unwrap();
    let full = fs.path("profile");

    let mut state = ApplyState::default();
    state.sysfs_changes = vec![SysfsChange {
        path: full,
        original_value: "performance".to_string(),
        new_value: "low-power".to_string(),
    }];

    let result = check_sysfs(&state, &fs);
    assert_eq!(result.len(), 1);
    assert!(result[0].active);
    assert_eq!(result[0].actual.as_deref(), Some("low-power"));
}

#[test]
fn test_check_sysfs_drifted_value() {
    let mut fs = SysfsRoot::new("");
    fs.write("profile", "performance\n").unwrap();
    let full = fs.path("profile");

    let mut state = ApplyState::default();
    state.sysfs_changes = vec![SysfsChange {
        path: full,
        original_value: "performance".to_string(),
        new_value: "low-power".to_string(),
    }];

    let result = check_sysfs(&state, &fs);
    assert_eq!(result.len(), 1);
    assert!(!result[0].active);
    assert_eq!(result[0].actual.as_deref(), Some("performance"));
}

#[test]
fn test_check_sysfs_missing_path() {
    let fs = SysfsRoot::new("");
    let mut state = ApplyState::default();
    state.sysfs_changes = vec![SysfsChange {
        path: "/nonexistent/path/does/not/exist".to_string(),
        original_value: "old".to_string(),
        new_value: "new".to_string(),
    }];

    let result = check_sysfs(&state, &fs);
    assert_eq!(result.len(), 1);
    assert!(!result[0].active);
    assert!(result[0].actual.is_none());
}

#[test]
fn test_check_services_lookup_by_probe() {
    let mut state = ApplyState::default();
    state.services_disabled = vec!["tlp.service".to_string(), "ghost.service".to_string()];
    let probes = vec![bop::audit::services::ServiceState {
        name: "tlp.service".to_string(),
        active: true,
        enabled: false,
    }];
    let result = bop::status::check_services(&state, &probes);
    assert_eq!(result.len(), 2);
    assert!(!result[0].still_stopped, "an active probe means the unit came back");
    assert!(result[1].still_stopped, "an unprobed unit counts as stopped");
    let _ = ServiceStatus { name: "x".to_string(), still_stopped: true };
}

#[test]
fn test_replay_new_values_completes_journal() {
    // Re-applying the journal's new values leaves every path reading
    // back exactly the recorded value, trimmed.
    let mut fs = SysfsRoot::new("");
    fs.write("sys/a", "old-a\n").unwrap();
    fs.write("sys/b", "old-b\n").unwrap();
    let changes = vec![
        SysfsChange {
            path: fs.path("sys/a"),
            original_value: "old-a".to_string(),
            new_value: "new-a".to_string(),
        },
        SysfsChange {
            path: fs.path("sys/b"),
            original_value: "old-b".to_string(),
            new_value: "new-b".to_string(),
        },
    ];
    bop::fs::replay_new_values(&mut fs, &changes).unwrap();
    assert_eq!(fs.read("sys/a").unwrap(), "new-a");
    assert_eq!(fs.read("sys/b").unwrap(), "new-b");
}

#[test]
fn test_sysfs_round_trip_restores_original() {
    // Apply writes a new value; revert writes the recorded original
    // back; the file ends where it started.
    let mut fs = SysfsRoot::new("");
    fs.write("sys/knob", "balanced").unwrap();
    let original = fs.read("sys/knob").unwrap();
    fs.write("sys/knob", "low-power").unwrap();
    assert_eq!(fs.read("sys/knob").unwrap(), "low-power");
    fs.write("sys/knob", &original).unwrap();
    assert_eq!(fs.read_raw("sys/knob").unwrap(), "balanced");
}
