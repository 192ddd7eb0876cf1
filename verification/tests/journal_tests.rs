use bop::journal::{merge_kernel_param_state, ApplyState, KernelParamBackup};

#[test]
fn test_merge_kernel_param_state_uses_new_backups_when_present() {
    let mut state = ApplyState::default();
    let planned = vec!["acpi.ec_no_wakeup=1".to_string()];
    let backups = vec![KernelParamBackup {
        path: "/boot/loader/entries/test.conf".to_string(),
        original_content: "options quiet acpi.ec_no_wakeup=0\n".to_string(),
    }];

    merge_kernel_param_state(&mut state, &planned, backups.clone(), None);

    assert_eq!(state.kernel_params_added, planned);
    assert_eq!(state.kernel_param_backups, backups);
}

#[test]
fn test_merge_kernel_param_state_preserves_previous_when_no_new_backups() {
    let mut state = ApplyState::default();
    let planned = vec!["acpi.ec_no_wakeup=1".to_string()];
    let mut previous = ApplyState::default();
    previous.kernel_params_added = vec!["acpi.ec_no_wakeup=1".to_string()];
    previous.kernel_param_backups = vec![KernelParamBackup {
        path: "/boot/loader/entries/test.conf".to_string(),
        original_content: "options quiet acpi.ec_no_wakeup=0\n".to_string(),
    }];

    merge_kernel_param_state(&mut state, &planned, Vec::new(), Some(&previous));

    assert_eq!(state.kernel_params_added, previous.kernel_params_added);
    assert_eq!(state.kernel_param_backups, previous.kernel_param_backups);
}

#[test]
fn test_merge_kernel_param_state_empty_when_no_backups_and_no_previous() {
    let mut state = ApplyState::default();
    let planned = vec!["acpi.ec_no_wakeup=1".to_string()];

    merge_kernel_param_state(&mut state, &planned, Vec::new(), None);

    assert_eq!(state.kernel_params_added, planned);
    assert!(state.kernel_param_backups.is_empty());
}

#[test]
fn test_merge_kernel_param_state_merges_new_and_previous_backups() {
    let mut state = ApplyState::default();
    let planned = vec![
        "acpi.ec_no_wakeup=1".to_string(),
        "rtc_cmos.use_acpi_alarm=1".to_string(),
    ];
    let prev_backup = KernelParamBackup {
        path: "/boot/loader/entries/old.conf".to_string(),
        original_content: "options quiet acpi.ec_no_wakeup=0\n".to_string(),
    };
    let new_backup = KernelParamBackup {
        path: "/boot/loader/entries/new.conf".to_string(),
        original_content: "options quiet rtc_cmos.use_acpi_alarm=0\n".to_string(),
    };
    let mut previous = ApplyState::default();
    previous.kernel_param_backups = vec![prev_backup.clone()];

    merge_kernel_param_state(&mut state, &planned, vec![new_backup.clone()], Some(&previous));

    assert_eq!(state.kernel_params_added, planned);
    assert_eq!(state.kernel_param_backups.len(), 2);
    assert!(state.kernel_param_backups.contains(&prev_backup));
    assert!(state.kernel_param_backups.contains(&new_backup));
}

#[test]
fn test_merge_kernel_param_state_new_backup_overwrites_same_path() {
    let mut state = ApplyState::default();
    let planned = vec!["acpi.ec_no_wakeup=1".to_string()];
    let prev_backup = KernelParamBackup {
        path: "/boot/loader/entries/linux.conf".to_string(),
        original_content: "options quiet\n".to_string(),
    };
    let new_backup = KernelParamBackup {
        path: "/boot/loader/entries/linux.conf".to_string(),
        original_content: "options quiet acpi.ec_no_wakeup=0\n".to_string(),
    };
    let mut previous = ApplyState::default();
    previous.kernel_param_backups = vec![prev_backup];

    merge_kernel_param_state(&mut state, &planned, vec![new_backup.clone()], Some(&previous));

    assert_eq!(state.kernel_param_backups.len(), 1);
    assert_eq!(state.kernel_param_backups[0], new_backup);
}

#[test]
fn test_merge_applied_twice_keeps_first_baseline_for_untouched_paths() {
    // Two applies in a row: the second run re-touches one file and leaves
    // the other alone; the union by path must keep the first run's
    // pristine content for the untouched file.
    let first_a = KernelParamBackup {
        path: "/boot/loader/entries/a.conf".to_string(),
        original_content: "options quiet\n".to_string(),
    };
    let first_b = KernelParamBackup {
        path: "/boot/loader/entries/b.conf".to_string(),
        original_content: "options ro\n".to_string(),
    };
    let mut after_first = ApplyState::default();
    merge_kernel_param_state(
        &mut after_first,
        &vec!["acpi.ec_no_wakeup=1".to_string()],
        vec![first_a.clone(), first_b.clone()],
        None,
    );

    let second_b = KernelParamBackup {
        path: "/boot/loader/entries/b.conf".to_string(),
        original_content: "options ro acpi.ec_no_wakeup=1\n".to_string(),
    };
    let mut after_second = ApplyState::default();
    merge_kernel_param_state(
        &mut after_second,
        &vec!["rtc_cmos.use_acpi_alarm=1".to_string()],
        vec![second_b.clone()],
        Some(&after_first),
    );

    assert_eq!(after_second.kernel_param_backups.len(), 2);
    assert!(after_second.kernel_param_backups.contains(&first_a));
    assert!(after_second.kernel_param_backups.contains(&second_b));
    assert!(!after_second.kernel_param_backups.contains(&first_b));
}
