//! Systemd inhibitors and the scope they leave an automatic apply.

use vstd::prelude::*;
use crate::config::InhibitorMode;

verus! {

/// One active inhibitor, as `systemd-inhibit --list` reports it.
#[derive(Debug, Clone)]
pub struct Inhibitor {
    pub who: String,
    pub why: String,
    pub what: String,
}

/// How much of the plan an automatic apply may execute.
#[derive(Debug, Clone, Copy, PartialEq, Eq, Structural)]
pub enum ApplyScope {
    /// Apply all optimizations normally.
    Full,
    /// Apply only the safe subset: sysfs writes, no service changes and
    /// no kernel parameters.
    Reduced,
    /// Skip all optimizations.
    Skip,
}

/// The scope the configured mode leaves, given the active inhibitors:
/// no inhibitors means a full apply whatever the mode.
pub fn should_apply(mode: &InhibitorMode, inhibitors: &Vec<Inhibitor>) -> (r: ApplyScope)
    ensures
        r == if inhibitors@.len() == 0 {
            ApplyScope::Full
        } else {
            match *mode {
                InhibitorMode::Skip => ApplyScope::Skip,
                InhibitorMode::Reduced => ApplyScope::Reduced,
                InhibitorMode::Full => ApplyScope::Full,
            }
        },
{
    if inhibitors.len() == 0 {
        return ApplyScope::Full;
    }
    match mode {
        InhibitorMode::Skip => ApplyScope::Skip,
        InhibitorMode::Reduced => ApplyScope::Reduced,
        InhibitorMode::Full => ApplyScope::Full,
    }
}

} // verus!
