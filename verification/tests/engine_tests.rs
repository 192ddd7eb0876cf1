use bop::apply::{execute_plan_with_ops, ApplyOps, ApplyPlan, PlannedSysfsWrite};
use bop::detect::HardwareInfo;
use bop::error::Error;
use bop::fs::SysfsRoot;
use bop::journal::{ApplyState, KernelParamBackup, SysfsChange};
use bop::revert::{revert_loaded_state, revert_steps, RevertOps};

struct TestApplyOps {
    fail_add_kernel_params: bool,
    fail_generate_service: bool,
    fail_enable_service: bool,
    checkpoint_count: usize,
    saved: Option<ApplyState>,
    written: Vec<(String, String)>,
}

impl TestApplyOps {
    fn new() -> Self {
        TestApplyOps {
            fail_add_kernel_params: false,
            fail_generate_service: false,
            fail_enable_service: false,
            checkpoint_count: 0,
            saved: None,
            written: Vec::new(),
        }
    }
}

impl ApplyOps for TestApplyOps {
    fn write_sysfs(&mut self, path: &str, value: &str) -> Result<(), Error> {
        self.written.push((path.to_string(), value.to_string()));
        Ok(())
    }

    fn toggle_acpi_wakeup(&mut self, _device: &str) -> Result<(), Error> {
        Ok(())
    }

    fn add_kernel_params(&mut self, _params: &Vec<String>) -> Result<Vec<KernelParamBackup>, Error> {
        if self.fail_add_kernel_params {
            return Err(Error::Other("injected kernel params failure".to_string()));
        }
        Ok(Vec::new())
    }

    fn disable_service(&mut self, _service: &str) -> Result<(), Error> {
        Ok(())
    }

    fn generate_service(&mut self, _hw: &HardwareInfo, _plan: &ApplyPlan) -> Result<String, Error> {
        if self.fail_generate_service {
            return Err(Error::Other("injected unit generation failure".to_string()));
        }
        Ok("/etc/systemd/system/bop-powersave.service".to_string())
    }

    fn enable_systemd_service(&mut self) -> Result<(), Error> {
        if self.fail_enable_service {
            return Err(Error::Other("injected unit enable failure".to_string()));
        }
        Ok(())
    }

    fn save_state(&mut self, state: &ApplyState) -> Result<(), Error> {
        self.checkpoint_count += 1;
        self.saved = Some(state.clone());
        Ok(())
    }
}

fn minimal_hw() -> HardwareInfo {
    HardwareInfo::detect(&SysfsRoot::new(""))
}

fn basic_plan(sysfs_path: &str) -> ApplyPlan {
    ApplyPlan {
        sysfs_writes: vec![PlannedSysfsWrite {
            path: sysfs_path.to_string(),
            value: "new".to_string(),
            description: "test write".to_string(),
        }],
        kernel_params: Vec::new(),
        services_to_disable: Vec::new(),
        acpi_wakeup_disable: Vec::new(),
        systemd_service: true,
        modprobe_configs: Vec::new(),
    }
}

#[test]
fn test_execute_plan_persists_sysfs_state_before_systemd_generation_failure() {
    let mut fs = SysfsRoot::new("");
    fs.write("sysfs-value", "old\n").unwrap();
    let path = fs.path("sysfs-value");

    let hw = minimal_hw();
    let plan = basic_plan(path.as_str());
    let mut ops = TestApplyOps::new();
    ops.fail_generate_service = true;

    let result = execute_plan_with_ops(&plan, &hw, &fs, None, false, &mut ops);
    assert!(result.is_err());

    let persisted = ops.saved.expect("a checkpoint fence must have persisted the journal");
    assert_eq!(persisted.sysfs_changes.len(), 1);
    assert_eq!(persisted.sysfs_changes[0].path, plan.sysfs_writes[0].path);
    assert_eq!(persisted.sysfs_changes[0].original_value, "old");
    assert_eq!(persisted.sysfs_changes[0].new_value, "new");
    assert!(persisted.systemd_units_created.is_empty());
}

#[test]
fn test_execute_plan_persists_created_unit_before_systemd_enable_failure() {
    let mut fs = SysfsRoot::new("");
    fs.write("sysfs-value", "old\n").unwrap();
    let path = fs.path("sysfs-value");

    let hw = minimal_hw();
    let mut plan = basic_plan(path.as_str());
    plan.kernel_params = vec!["acpi.ec_no_wakeup=1".to_string()];
    plan.services_to_disable = vec!["dummy.service".to_string()];

    let mut ops = TestApplyOps::new();
    ops.fail_enable_service = true;

    let result = execute_plan_with_ops(&plan, &hw, &fs, None, false, &mut ops);
    assert!(result.is_err());

    let persisted = ops.saved.expect("four fences must have run before the enable failure");
    assert_eq!(persisted.sysfs_changes.len(), 1);
    assert_eq!(persisted.kernel_params_added, plan.kernel_params);
    assert_eq!(persisted.services_disabled, plan.services_to_disable);
    assert_eq!(
        persisted.systemd_units_created,
        vec!["/etc/systemd/system/bop-powersave.service".to_string()]
    );
    assert_eq!(ops.checkpoint_count, 4);
}

#[test]
fn test_execute_plan_checkpoints_nothing_when_failure_comes_first() {
    let hw = minimal_hw();
    let fs = SysfsRoot::new("");
    let plan = ApplyPlan {
        sysfs_writes: Vec::new(),
        kernel_params: vec!["acpi.ec_no_wakeup=1".to_string()],
        services_to_disable: Vec::new(),
        acpi_wakeup_disable: Vec::new(),
        systemd_service: false,
        modprobe_configs: Vec::new(),
    };

    let mut ops = TestApplyOps::new();
    ops.fail_add_kernel_params = true;

    let result = execute_plan_with_ops(&plan, &hw, &fs, None, false, &mut ops);
    assert!(result.is_err());
    assert_eq!(ops.checkpoint_count, 0);
    assert!(ops.saved.is_none());
}

#[test]
fn test_execute_plan_dry_run_calls_nothing() {
    let mut fs = SysfsRoot::new("");
    fs.write("sysfs-value", "old\n").unwrap();
    let path = fs.path("sysfs-value");
    let hw = minimal_hw();
    let plan = basic_plan(path.as_str());
    let mut ops = TestApplyOps::new();

    let state = execute_plan_with_ops(&plan, &hw, &fs, None, true, &mut ops).unwrap();
    assert!(state.sysfs_changes.is_empty());
    assert!(ops.written.is_empty());
    assert_eq!(ops.checkpoint_count, 0);
}

#[test]
fn test_execute_plan_only_toggles_enabled_wake_sources() {
    let mut fs = SysfsRoot::new("");
    fs.write(
        "proc/acpi/wakeup",
        "XHC1\tS3\t*enabled\tpci:0000:c1:00.4\nXHC2\tS3\t*disabled\tpci:0000:c1:00.5\n",
    )
    .unwrap();
    let hw = minimal_hw();
    let plan = ApplyPlan {
        sysfs_writes: Vec::new(),
        kernel_params: Vec::new(),
        services_to_disable: Vec::new(),
        acpi_wakeup_disable: vec!["XHC1".to_string(), "XHC2".to_string()],
        systemd_service: false,
        modprobe_configs: Vec::new(),
    };
    let mut ops = TestApplyOps::new();
    let state = execute_plan_with_ops(&plan, &hw, &fs, None, false, &mut ops).unwrap();
    assert_eq!(state.acpi_wakeup_toggled, vec!["XHC1".to_string()]);
}

struct TestRevertOps {
    failing_sysfs_path: Option<String>,
    fail_enable: bool,
    toggled: Vec<String>,
    restored: Vec<(String, String)>,
    saved: Option<ApplyState>,
    removed_state_file: bool,
}

impl TestRevertOps {
    fn new() -> Self {
        TestRevertOps {
            failing_sysfs_path: None,
            fail_enable: false,
            toggled: Vec::new(),
            restored: Vec::new(),
            saved: None,
            removed_state_file: false,
        }
    }
}

impl RevertOps for TestRevertOps {
    fn write_sysfs(&mut self, path: &str, value: &str) -> Result<(), Error> {
        if let Some(bad) = &self.failing_sysfs_path {
            if bad == path {
                return Err(Error::SysfsWrite { path: path.to_string() });
            }
        }
        self.restored.push((path.to_string(), value.to_string()));
        Ok(())
    }

    fn toggle_acpi_wakeup(&mut self, device: &str) -> Result<(), Error> {
        self.toggled.push(device.to_string());
        Ok(())
    }

    fn restore_kernel_param_backups(
        &mut self,
        _backups: &Vec<KernelParamBackup>,
    ) -> Result<(), Error> {
        Ok(())
    }

    fn remove_kernel_params(&mut self, _params: &Vec<String>) -> Result<(), Error> {
        Ok(())
    }

    fn enable_service(&mut self, service: &str) -> Result<(), Error> {
        if self.fail_enable {
            return Err(Error::Other(format!("cannot enable {}", service)));
        }
        Ok(())
    }

    fn remove_units(&mut self) -> Result<(), Error> {
        Ok(())
    }

    fn save_state(&mut self, state: &ApplyState) -> Result<(), Error> {
        self.saved = Some(state.clone());
        Ok(())
    }

    fn remove_state_file(&mut self) -> Result<(), Error> {
        self.removed_state_file = true;
        Ok(())
    }
}

fn change(path: &str, original: &str, new: &str) -> SysfsChange {
    SysfsChange {
        path: path.to_string(),
        original_value: original.to_string(),
        new_value: new.to_string(),
    }
}

#[test]
fn test_revert_keeps_state_when_a_restore_step_fails() {
    let mut state = ApplyState::default();
    state.timestamp = "2026-02-18T00:00:00Z".to_string();
    state.sysfs_changes = vec![
        change("/ok/path", "old-value", "new-value"),
        change("/missing/restore-fail", "old-fail", "new-fail"),
    ];

    let mut ops = TestRevertOps::new();
    ops.failing_sysfs_path = Some("/missing/restore-fail".to_string());

    let (complete, retained) = revert_loaded_state(&state, &mut ops).unwrap();
    assert!(!complete, "revert must report partial failure");
    assert_eq!(retained.sysfs_changes.len(), 1);
    assert!(!ops.removed_state_file);

    let remaining = ops.saved.expect("a partial revert must persist the retained journal");
    assert_eq!(remaining.sysfs_changes.len(), 1);
    assert_eq!(remaining.sysfs_changes[0].path, "/missing/restore-fail");
    assert_eq!(
        ops.restored,
        vec![("/ok/path".to_string(), "old-value".to_string())]
    );
}

#[test]
fn test_revert_does_not_retry_successful_acpi_toggles_after_partial_failure() {
    let mut state = ApplyState::default();
    state.timestamp = "2026-02-18T00:00:00Z".to_string();
    state.sysfs_changes = vec![change("/missing/restore-fail", "old-fail", "new-fail")];
    state.acpi_wakeup_toggled = vec!["XHC0".to_string()];

    let mut ops = TestRevertOps::new();
    ops.failing_sysfs_path = Some("/missing/restore-fail".to_string());

    let (complete, _retained) = revert_loaded_state(&state, &mut ops).unwrap();
    assert!(!complete);

    let remaining = ops.saved.expect("partial revert persists the retained journal");
    assert!(
        remaining.acpi_wakeup_toggled.is_empty(),
        "successful toggles must not be retried: the interface is edge-triggered"
    );
    assert_eq!(remaining.sysfs_changes.len(), 1);
    assert_eq!(remaining.sysfs_changes[0].path, "/missing/restore-fail");
    assert_eq!(ops.toggled, vec!["XHC0".to_string()]);
}

#[test]
fn test_revert_removes_state_when_all_steps_succeed() {
    let mut state = ApplyState::default();
    state.timestamp = "2026-02-18T00:00:00Z".to_string();
    state.sysfs_changes = vec![change("/ok/path", "old-value", "new-value")];

    let mut ops = TestRevertOps::new();
    let (complete, retained) = revert_loaded_state(&state, &mut ops).unwrap();
    assert!(complete);
    assert!(retained.sysfs_changes.is_empty());
    assert!(ops.removed_state_file);
    assert!(ops.saved.is_none());
    assert_eq!(
        ops.restored,
        vec![("/ok/path".to_string(), "old-value".to_string())]
    );
}

#[test]
fn test_revert_keeps_failed_services() {
    let mut state = ApplyState::default();
    state.services_disabled = vec!["tlp.service".to_string()];
    let mut ops = TestRevertOps::new();
    ops.fail_enable = true;
    let remaining = revert_steps(&state, &mut ops);
    assert_eq!(remaining.services_disabled, vec!["tlp.service".to_string()]);
}
