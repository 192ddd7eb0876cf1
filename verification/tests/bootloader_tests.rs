use bop::fs::SysfsRoot;
use bop::kernel_params::{
    add_kernel_params_systemd_boot, add_kernel_params_grub, add_params_to_line,
    build_content_with_added_params, build_grub_content_with_added_params, detect_bootloader,
    is_grub_cmdline_line, remove_kernel_params_grub, remove_kernel_params_systemd_boot,
    restore_kernel_param_backups, BootloaderType,
};

fn empty_fs() -> SysfsRoot {
    SysfsRoot::new("")
}

#[test]
fn test_detect_bootloader_systemd_boot() {
    let mut fs = empty_fs();
    fs.add_dir("boot/loader/entries");
    assert_eq!(detect_bootloader(&fs).unwrap(), BootloaderType::SystemdBoot);
}

#[test]
fn test_detect_bootloader_grub() {
    let mut fs = empty_fs();
    fs.write("etc/default/grub", "GRUB_CMDLINE_LINUX_DEFAULT=\"quiet\"\n").unwrap();
    assert_eq!(detect_bootloader(&fs).unwrap(), BootloaderType::Grub);
}

#[test]
fn test_detect_bootloader_prefers_systemd_boot() {
    let mut fs = empty_fs();
    fs.add_dir("boot/loader/entries");
    fs.write("etc/default/grub", "GRUB_CMDLINE_LINUX_DEFAULT=\"quiet\"\n").unwrap();
    assert_eq!(detect_bootloader(&fs).unwrap(), BootloaderType::SystemdBoot);
}

#[test]
fn test_detect_bootloader_none_found() {
    let fs = empty_fs();
    assert!(detect_bootloader(&fs).is_err());
}

#[test]
fn test_add_kernel_params_records_backup_and_restore_recovers_old_value() {
    let mut fs = empty_fs();
    let original = "title Linux\nlinux /vmlinuz-linux\noptions root=UUID=abc quiet acpi.ec_no_wakeup=0 rtc_cmos.use_acpi_alarm=0\n";
    fs.write("entries/linux.conf", original).unwrap();

    let params = vec![
        "acpi.ec_no_wakeup=1".to_string(),
        "rtc_cmos.use_acpi_alarm=1".to_string(),
    ];
    let backups = add_kernel_params_systemd_boot(&mut fs, "entries", &params).unwrap();

    assert_eq!(backups.len(), 1);
    assert_eq!(backups[0].path, fs.path("entries/linux.conf"));
    assert_eq!(backups[0].original_content, original);

    let updated = fs.read_raw("entries/linux.conf").unwrap();
    assert!(updated.contains("acpi.ec_no_wakeup=1"));
    assert!(updated.contains("rtc_cmos.use_acpi_alarm=1"));
    assert!(!updated.contains("acpi.ec_no_wakeup=0"));
    assert!(!updated.contains("rtc_cmos.use_acpi_alarm=0"));

    restore_kernel_param_backups(&mut fs, &backups).unwrap();
    let restored = fs.read_raw("entries/linux.conf").unwrap();
    assert_eq!(restored, original);
}

#[test]
fn test_systemd_boot_full_line_rewrite() {
    // One entry file with stale values for both parameters: the rewrite
    // replaces them in place and one backup holds the original bytes.
    let mut fs = empty_fs();
    let original = "options root=UUID=abc quiet acpi.ec_no_wakeup=0 rtc_cmos.use_acpi_alarm=0\n";
    fs.write("entries/linux.conf", original).unwrap();

    let params = vec![
        "acpi.ec_no_wakeup=1".to_string(),
        "rtc_cmos.use_acpi_alarm=1".to_string(),
    ];
    let backups = add_kernel_params_systemd_boot(&mut fs, "entries", &params).unwrap();
    assert_eq!(backups.len(), 1);
    assert_eq!(backups[0].original_content, original);

    let updated = fs.read_raw("entries/linux.conf").unwrap();
    assert_eq!(
        updated,
        "options root=UUID=abc quiet acpi.ec_no_wakeup=1 rtc_cmos.use_acpi_alarm=1\n"
    );

    restore_kernel_param_backups(&mut fs, &backups).unwrap();
    assert_eq!(fs.read_raw("entries/linux.conf").unwrap(), original);
}

#[test]
fn test_add_kernel_params_no_change_returns_no_backup() {
    let mut fs = empty_fs();
    let content = "options quiet acpi.ec_no_wakeup=1 rtc_cmos.use_acpi_alarm=1\n";
    fs.write("entries/linux.conf", content).unwrap();

    let params = vec![
        "acpi.ec_no_wakeup=1".to_string(),
        "rtc_cmos.use_acpi_alarm=1".to_string(),
    ];
    let backups = add_kernel_params_systemd_boot(&mut fs, "entries", &params).unwrap();

    assert!(backups.is_empty());
    assert_eq!(fs.read_raw("entries/linux.conf").unwrap(), content);
}

#[test]
fn test_remove_kernel_params_strips_matching_params() {
    let mut fs = empty_fs();
    let content =
        "title Linux\noptions root=UUID=abc quiet acpi.ec_no_wakeup=1 rtc_cmos.use_acpi_alarm=1\n";
    fs.write("entries/linux.conf", content).unwrap();

    let params = vec![
        "acpi.ec_no_wakeup=1".to_string(),
        "rtc_cmos.use_acpi_alarm=1".to_string(),
    ];
    remove_kernel_params_systemd_boot(&mut fs, "entries", &params).unwrap();

    let after = fs.read_raw("entries/linux.conf").unwrap();
    assert!(!after.contains("acpi.ec_no_wakeup"));
    assert!(!after.contains("rtc_cmos.use_acpi_alarm"));
    assert!(after.contains("root=UUID=abc"));
    assert!(after.contains("quiet"));
}

#[test]
fn test_add_kernel_params_preserves_ordering() {
    let mut fs = empty_fs();
    let content = "options root=UUID=abc acpi.ec_no_wakeup=0 quiet\n";
    fs.write("entries/linux.conf", content).unwrap();

    let params = vec!["acpi.ec_no_wakeup=1".to_string()];
    let backups = add_kernel_params_systemd_boot(&mut fs, "entries", &params).unwrap();

    assert_eq!(backups.len(), 1);
    let after = fs.read_raw("entries/linux.conf").unwrap();
    assert_eq!(after, "options root=UUID=abc acpi.ec_no_wakeup=1 quiet\n");
}

#[test]
fn test_systemd_boot_rollback_on_write_failure() {
    // Two entries: the first is writable, the second refuses writes. The
    // apply must restore the first entry's bytes before it fails.
    let mut fs = empty_fs();
    let first = "options quiet acpi.ec_no_wakeup=0\n";
    let second = "options splash acpi.ec_no_wakeup=0\n";
    fs.write("entries/a.conf", first).unwrap();
    fs.write("entries/b.conf", second).unwrap();
    fs.deny_writes("entries/b.conf");

    let params = vec!["acpi.ec_no_wakeup=1".to_string()];
    let result = add_kernel_params_systemd_boot(&mut fs, "entries", &params);
    assert!(result.is_err());
    assert_eq!(fs.read_raw("entries/a.conf").unwrap(), first);
    assert_eq!(fs.read_raw("entries/b.conf").unwrap(), second);
}

#[test]
fn test_systemd_boot_rollback_on_read_failure() {
    // Two entries: the first is readable and writable, the second cannot
    // be read. The apply edits the first entry, then hits the read error
    // and must restore the first entry's bytes before it fails.
    let mut fs = empty_fs();
    let first = "options quiet acpi.ec_no_wakeup=0\n";
    let second = "options splash\n";
    fs.write("entries/a.conf", first).unwrap();
    fs.write("entries/b.conf", second).unwrap();
    fs.deny_reads("entries/b.conf");

    let params = vec!["acpi.ec_no_wakeup=1".to_string()];
    let result = add_kernel_params_systemd_boot(&mut fs, "entries", &params);
    assert!(result.is_err());
    assert_eq!(fs.read_raw("entries/a.conf").unwrap(), first);
}

#[test]
fn test_add_kernel_params_grub_appends_new() {
    let mut fs = empty_fs();
    fs.write(
        "etc/default/grub",
        "GRUB_TIMEOUT=5\nGRUB_CMDLINE_LINUX_DEFAULT=\"quiet splash\"\n",
    )
    .unwrap();

    let params = vec![
        "acpi.ec_no_wakeup=1".to_string(),
        "rtc_cmos.use_acpi_alarm=1".to_string(),
    ];
    let backups = add_kernel_params_grub(&mut fs, "etc/default/grub", &params).unwrap();

    assert_eq!(backups.len(), 1);
    let after = fs.read_raw("etc/default/grub").unwrap();
    assert!(after.contains("quiet splash acpi.ec_no_wakeup=1 rtc_cmos.use_acpi_alarm=1"));
    assert!(after.contains("GRUB_TIMEOUT=5"));
}

#[test]
fn test_add_kernel_params_grub_replaces_existing() {
    let mut fs = empty_fs();
    fs.write("etc/default/grub", "GRUB_CMDLINE_LINUX_DEFAULT=\"quiet acpi.ec_no_wakeup=0\"\n")
        .unwrap();

    let params = vec!["acpi.ec_no_wakeup=1".to_string()];
    let backups = add_kernel_params_grub(&mut fs, "etc/default/grub", &params).unwrap();

    assert_eq!(backups.len(), 1);
    let after = fs.read_raw("etc/default/grub").unwrap();
    assert!(after.contains("acpi.ec_no_wakeup=1"));
    assert!(!after.contains("acpi.ec_no_wakeup=0"));
}

#[test]
fn test_add_kernel_params_grub_no_change() {
    let mut fs = empty_fs();
    fs.write("etc/default/grub", "GRUB_CMDLINE_LINUX_DEFAULT=\"quiet acpi.ec_no_wakeup=1\"\n")
        .unwrap();

    let params = vec!["acpi.ec_no_wakeup=1".to_string()];
    let backups = add_kernel_params_grub(&mut fs, "etc/default/grub", &params).unwrap();
    assert!(backups.is_empty());
}

#[test]
fn test_add_kernel_params_grub_single_quotes() {
    let mut fs = empty_fs();
    fs.write("etc/default/grub", "GRUB_CMDLINE_LINUX_DEFAULT='quiet'\n").unwrap();

    let params = vec!["acpi.ec_no_wakeup=1".to_string()];
    let backups = add_kernel_params_grub(&mut fs, "etc/default/grub", &params).unwrap();

    assert_eq!(backups.len(), 1);
    let after = fs.read_raw("etc/default/grub").unwrap();
    assert!(after.contains("'quiet acpi.ec_no_wakeup=1'"));
}

#[test]
fn test_remove_kernel_params_grub() {
    let mut fs = empty_fs();
    fs.write(
        "etc/default/grub",
        "GRUB_CMDLINE_LINUX_DEFAULT=\"quiet acpi.ec_no_wakeup=1 rtc_cmos.use_acpi_alarm=1\"\n",
    )
    .unwrap();

    let params = vec![
        "acpi.ec_no_wakeup=1".to_string(),
        "rtc_cmos.use_acpi_alarm=1".to_string(),
    ];
    let changed = remove_kernel_params_grub(&mut fs, "etc/default/grub", &params).unwrap();

    assert!(changed);
    let after = fs.read_raw("etc/default/grub").unwrap();
    assert!(!after.contains("acpi.ec_no_wakeup"));
    assert!(!after.contains("rtc_cmos.use_acpi_alarm"));
    assert!(after.contains("quiet"));
}

#[test]
fn test_remove_kernel_params_grub_no_change() {
    let mut fs = empty_fs();
    fs.write("etc/default/grub", "GRUB_CMDLINE_LINUX_DEFAULT=\"quiet\"\n").unwrap();

    let params = vec!["acpi.ec_no_wakeup=1".to_string()];
    let changed = remove_kernel_params_grub(&mut fs, "etc/default/grub", &params).unwrap();
    assert!(!changed);
}

#[test]
fn test_grub_backup_and_restore_round_trip() {
    let mut fs = empty_fs();
    let original = "GRUB_TIMEOUT=5\nGRUB_CMDLINE_LINUX_DEFAULT=\"quiet\"\n";
    fs.write("etc/default/grub", original).unwrap();

    let params = vec!["acpi.ec_no_wakeup=1".to_string()];
    let backups = add_kernel_params_grub(&mut fs, "etc/default/grub", &params).unwrap();

    assert_eq!(backups.len(), 1);
    assert_eq!(backups[0].original_content, original);

    let modified = fs.read_raw("etc/default/grub").unwrap();
    assert!(modified.contains("acpi.ec_no_wakeup=1"));

    restore_kernel_param_backups(&mut fs, &backups).unwrap();
    let restored = fs.read_raw("etc/default/grub").unwrap();
    assert_eq!(restored, original);
}

#[test]
fn test_grub_preserves_surrounding_lines() {
    let mut fs = empty_fs();
    let content = "# Comment line\nGRUB_DEFAULT=0\nGRUB_TIMEOUT=5\nGRUB_CMDLINE_LINUX_DEFAULT=\"quiet splash\"\nGRUB_CMDLINE_LINUX=\"\"\n";
    fs.write("etc/default/grub", content).unwrap();

    let params = vec!["acpi.ec_no_wakeup=1".to_string()];
    add_kernel_params_grub(&mut fs, "etc/default/grub", &params).unwrap();

    let after = fs.read_raw("etc/default/grub").unwrap();
    assert!(after.contains("# Comment line"));
    assert!(after.contains("GRUB_DEFAULT=0"));
    assert!(after.contains("GRUB_TIMEOUT=5"));
    assert!(after.contains("GRUB_CMDLINE_LINUX=\"\""));
    assert!(after.contains("acpi.ec_no_wakeup=1"));
}

#[test]
fn test_grub_only_modifies_cmdline_default_not_cmdline_linux() {
    let mut fs = empty_fs();
    let content = "GRUB_CMDLINE_LINUX=\"crashkernel=auto\"\nGRUB_CMDLINE_LINUX_DEFAULT=\"quiet\"\n";
    fs.write("etc/default/grub", content).unwrap();

    let params = vec!["acpi.ec_no_wakeup=1".to_string()];
    add_kernel_params_grub(&mut fs, "etc/default/grub", &params).unwrap();

    let after = fs.read_raw("etc/default/grub").unwrap();
    assert!(after.contains("GRUB_CMDLINE_LINUX=\"crashkernel=auto\""));
    assert!(after.contains("GRUB_CMDLINE_LINUX_DEFAULT=\"quiet acpi.ec_no_wakeup=1\""));
}

#[test]
fn test_grub_single_quote_line_leaves_other_assignment_alone() {
    // A single-quoted default beside a double-quoted GRUB_CMDLINE_LINUX:
    // only the default line changes, and its quote style survives.
    let mut fs = empty_fs();
    let content =
        "GRUB_CMDLINE_LINUX_DEFAULT='quiet'\nGRUB_CMDLINE_LINUX=\"crashkernel=auto\"\n";
    fs.write("etc/default/grub", content).unwrap();

    let params = vec!["acpi.ec_no_wakeup=1".to_string()];
    add_kernel_params_grub(&mut fs, "etc/default/grub", &params).unwrap();

    let after = fs.read_raw("etc/default/grub").unwrap();
    assert_eq!(
        after,
        "GRUB_CMDLINE_LINUX_DEFAULT='quiet acpi.ec_no_wakeup=1'\nGRUB_CMDLINE_LINUX=\"crashkernel=auto\"\n"
    );
}

#[test]
fn test_pure_content_helpers() {
    let line = add_params_to_line(
        "options root=UUID=abc quiet",
        &vec!["acpi.ec_no_wakeup=1".to_string()],
    );
    assert_eq!(line, "options root=UUID=abc quiet acpi.ec_no_wakeup=1");

    assert!(is_grub_cmdline_line("GRUB_CMDLINE_LINUX_DEFAULT=\"quiet\""));
    assert!(is_grub_cmdline_line("  GRUB_CMDLINE_LINUX_DEFAULT='x'"));
    assert!(!is_grub_cmdline_line("GRUB_CMDLINE_LINUX=\"quiet\""));
    assert!(!is_grub_cmdline_line("GRUB_CMDLINE_LINUX_DEFAULT"));

    let out = build_content_with_added_params(
        "title x\noptions quiet\n",
        "/boot/loader/entries/x.conf",
        &vec!["a=1".to_string()],
    )
    .unwrap();
    assert_eq!(out, "title x\noptions quiet a=1\n");

    let err = build_content_with_added_params(
        "title x\nlinux /vmlinuz\n",
        "/boot/loader/entries/x.conf",
        &vec!["a=1".to_string()],
    );
    assert!(err.is_err());

    let err = build_grub_content_with_added_params("GRUB_TIMEOUT=5\n", &vec!["a=1".to_string()]);
    assert!(err.is_err());
}
