//! Configuration types and their defaults. Loading and merging the TOML
//! files is the shell's work; the types and defaults live here.

use vstd::prelude::*;

verus! {

/// Top-level configuration.
#[derive(Debug, Clone)]
pub struct BopConfig {
    pub auto: AutoConfig,
    pub epp: EppConfig,
    pub brightness: BrightnessConfig,
    pub inhibitors: InhibitorConfig,
    pub notifications: NotificationConfig,
}

/// Auto-switching behaviour.
#[derive(Debug, Clone)]
pub struct AutoConfig {
    pub aggressive: bool,
}

/// Adaptive energy-performance preference selection.
#[derive(Debug, Clone)]
pub struct EppConfig {
    pub adaptive: bool,
    pub thresholds: Vec<EppThreshold>,
}

/// One battery-percentage threshold and the preference below it.
#[derive(Debug, Clone)]
pub struct EppThreshold {
    pub battery_percent: u8,
    pub epp_value: EppHint,
}

/// The energy-performance preferences a threshold can select.
#[derive(Debug, Clone, Copy, PartialEq, Eq, Structural)]
pub enum EppHint {
    Performance,
    BalancePerformance,
    BalancePower,
    Power,
}

impl EppHint {
    /// The sysfs spelling of the preference.
    pub fn label(&self) -> (r: String)
        ensures
            r@ == match *self {
                EppHint::Performance => "performance"@,
                EppHint::BalancePerformance => "balance_performance"@,
                EppHint::BalancePower => "balance_power"@,
                EppHint::Power => "power"@,
            },
    {
        match self {
            EppHint::Performance => "performance".to_owned(),
            EppHint::BalancePerformance => "balance_performance".to_owned(),
            EppHint::BalancePower => "balance_power".to_owned(),
            EppHint::Power => "power".to_owned(),
        }
    }
}

/// Backlight dimming behaviour on battery.
#[derive(Debug, Clone)]
pub struct BrightnessConfig {
    pub auto_dim: bool,
    pub dim_percent: u8,
}

/// Behaviour when systemd inhibitors are active.
#[derive(Debug, Clone)]
pub struct InhibitorConfig {
    pub mode: InhibitorMode,
}

/// How active inhibitors shape an automatic apply.
#[derive(Debug, Clone, Copy, PartialEq, Eq, Structural)]
pub enum InhibitorMode {
    Skip,
    Reduced,
    Full,
}

/// Desktop-notification behaviour.
#[derive(Debug, Clone)]
pub struct NotificationConfig {
    pub enabled: bool,
    pub on_apply: bool,
    pub on_revert: bool,
}

impl Default for AutoConfig {
    /// No aggressive switching unless asked for.
    fn default() -> (r: Self)
        ensures
            !r.aggressive,
    {
        AutoConfig { aggressive: false }
    }
}

impl Default for EppConfig {
    /// Adaptive selection off, with the stock three-step ladder.
    fn default() -> (r: Self)
        ensures
            !r.adaptive,
            r.thresholds@.len() == 3,
            r.thresholds@[0].battery_percent == 20 && r.thresholds@[0].epp_value
                == EppHint::Power,
            r.thresholds@[1].battery_percent == 50 && r.thresholds@[1].epp_value
                == EppHint::BalancePower,
            r.thresholds@[2].battery_percent == 100 && r.thresholds@[2].epp_value
                == EppHint::BalancePerformance,
    {
        let mut thresholds: Vec<EppThreshold> = Vec::new();
        thresholds.push(EppThreshold { battery_percent: 20, epp_value: EppHint::Power });
        thresholds.push(EppThreshold { battery_percent: 50, epp_value: EppHint::BalancePower });
        thresholds.push(
            EppThreshold { battery_percent: 100, epp_value: EppHint::BalancePerformance },
        );
        EppConfig { adaptive: false, thresholds }
    }
}

impl Default for BrightnessConfig {
    /// Dimming off; three-fifths of the current level when enabled.
    fn default() -> (r: Self)
        ensures
            !r.auto_dim,
            r.dim_percent == 60,
    {
        BrightnessConfig { auto_dim: false, dim_percent: 60 }
    }
}

impl Default for InhibitorConfig {
    /// Reduced application while inhibitors hold.
    fn default() -> (r: Self)
        ensures
            r.mode == InhibitorMode::Reduced,
    {
        InhibitorConfig { mode: InhibitorMode::Reduced }
    }
}

impl Default for NotificationConfig {
    /// Notifications off as a whole, both kinds on once enabled.
    fn default() -> (r: Self)
        ensures
            !r.enabled,
            r.on_apply,
            r.on_revert,
    {
        NotificationConfig { enabled: false, on_apply: true, on_revert: true }
    }
}

impl Default for BopConfig {
    /// Every section at its own default.
    fn default() -> (r: Self)
        ensures
            !r.auto.aggressive,
            !r.epp.adaptive,
            r.epp.thresholds@.len() == 3,
            !r.brightness.auto_dim,
            r.brightness.dim_percent == 60,
            r.inhibitors.mode == InhibitorMode::Reduced,
            !r.notifications.enabled,
            r.notifications.on_apply,
            r.notifications.on_revert,
    {
        BopConfig {
            auto: AutoConfig::default(),
            epp: EppConfig::default(),
            brightness: BrightnessConfig::default(),
            inhibitors: InhibitorConfig::default(),
            notifications: NotificationConfig::default(),
        }
    }
}

} // verus!
