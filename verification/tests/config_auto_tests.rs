use bop::auto::{plan_auto_step, udev_rule_content, AutoStep};
use bop::config::{BopConfig, EppHint, InhibitorMode};
use bop::detect::ac::AcInfo;
use bop::inhibitors::{should_apply, ApplyScope, Inhibitor};

#[test]
fn test_default_config() {
    let config = BopConfig::default();
    assert!(!config.auto.aggressive);
    assert!(!config.epp.adaptive);
    assert_eq!(config.epp.thresholds.len(), 3);
    assert_eq!(config.epp.thresholds[0].battery_percent, 20);
    assert_eq!(config.epp.thresholds[0].epp_value, EppHint::Power);
    assert!(!config.brightness.auto_dim);
    assert_eq!(config.brightness.dim_percent, 60);
    assert_eq!(config.inhibitors.mode, InhibitorMode::Reduced);
    assert!(!config.notifications.enabled);
    assert!(config.notifications.on_apply);
    assert!(config.notifications.on_revert);
}

#[test]
fn test_epp_hint_display() {
    assert_eq!(EppHint::Performance.label(), "performance");
    assert_eq!(EppHint::BalancePerformance.label(), "balance_performance");
    assert_eq!(EppHint::BalancePower.label(), "balance_power");
    assert_eq!(EppHint::Power.label(), "power");
}

fn make_inhibitor() -> Inhibitor {
    Inhibitor {
        who: "test".to_string(),
        what: "sleep".to_string(),
        why: "testing".to_string(),
    }
}

#[test]
fn test_should_apply_empty_inhibitors_returns_full() {
    let scope = should_apply(&InhibitorMode::Skip, &vec![]);
    assert_eq!(scope, ApplyScope::Full);
}

#[test]
fn test_should_apply_skip_mode_with_inhibitors() {
    let scope = should_apply(&InhibitorMode::Skip, &vec![make_inhibitor()]);
    assert_eq!(scope, ApplyScope::Skip);
}

#[test]
fn test_should_apply_reduced_mode_with_inhibitors() {
    let scope = should_apply(&InhibitorMode::Reduced, &vec![make_inhibitor()]);
    assert_eq!(scope, ApplyScope::Reduced);
}

#[test]
fn test_should_apply_full_mode_with_inhibitors() {
    let scope = should_apply(&InhibitorMode::Full, &vec![make_inhibitor()]);
    assert_eq!(scope, ApplyScope::Full);
}

#[test]
fn test_udev_rule_normal() {
    let rule = udev_rule_content(false);
    assert!(rule.contains("RUN+=\"/usr/bin/bop auto\""));
    assert!(!rule.contains("--aggressive"));
    assert!(rule.contains("KERNEL!=\"hidpp_battery*\""));
    assert!(rule.contains("SUBSYSTEM==\"power_supply\""));
}

#[test]
fn test_udev_rule_aggressive() {
    let rule = udev_rule_content(true);
    assert!(rule.contains("RUN+=\"/usr/bin/bop --aggressive auto\""));
    assert!(rule.contains("--aggressive"));
}

fn adapter(found: bool, online: bool) -> AcInfo {
    AcInfo { found, supply_name: None, online }
}

#[test]
fn test_auto_step_applies_on_battery_without_state() {
    let step = plan_auto_step(&adapter(true, false), true, false, ApplyScope::Full);
    assert_eq!(step, AutoStep::Apply { reduced: false });
}

#[test]
fn test_auto_step_reduced_under_inhibitors() {
    let step = plan_auto_step(&adapter(true, false), true, false, ApplyScope::Reduced);
    assert_eq!(step, AutoStep::Apply { reduced: true });
}

#[test]
fn test_auto_step_skips_when_inhibited() {
    let step = plan_auto_step(&adapter(true, false), true, false, ApplyScope::Skip);
    assert_eq!(step, AutoStep::NoOp);
}

#[test]
fn test_auto_step_reverts_on_mains_with_state() {
    let step = plan_auto_step(&adapter(true, true), true, true, ApplyScope::Full);
    assert_eq!(step, AutoStep::Revert);
}

#[test]
fn test_auto_step_noop_when_nothing_changed() {
    let step = plan_auto_step(&adapter(true, true), true, false, ApplyScope::Full);
    assert_eq!(step, AutoStep::NoOp);
    let step = plan_auto_step(&adapter(true, false), true, true, ApplyScope::Full);
    assert_eq!(step, AutoStep::NoOp);
}

#[test]
fn test_auto_step_without_adapter_or_profile() {
    let step = plan_auto_step(&adapter(false, false), true, false, ApplyScope::Full);
    assert_eq!(step, AutoStep::NoAcAdapter);
    let step = plan_auto_step(&adapter(true, false), false, false, ApplyScope::Full);
    assert_eq!(step, AutoStep::NoProfile);
}
