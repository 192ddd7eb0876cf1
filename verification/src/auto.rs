//! Automatic AC/battery switching: the decision core and the udev rule.
//!
//! The shell owns the lock file, the udev reload and the journal I/O; the
//! decision of what one auto run does is a pure function here.

use vstd::prelude::*;
use crate::detect::ac::AcInfo;
use crate::inhibitors::ApplyScope;

verus! {

/// Outcome of an auto-switching run.
#[derive(Debug, Clone, Copy, PartialEq, Eq, Structural)]
pub enum AutoOutcome {
    Applied,
    Reverted,
    NoOp,
    NoProfile,
    NoAcAdapter,
}

/// What one auto run does next.
#[derive(Debug, Clone, Copy, PartialEq, Eq, Structural)]
pub enum AutoStep {
    /// Build and execute a plan; the reduced flag asks for the safe
    /// subset only.
    Apply { reduced: bool },
    /// Revert the outstanding journal.
    Revert,
    /// Nothing to do.
    NoOp,
    /// No hardware profile matched.
    NoProfile,
    /// No mains adapter was found.
    NoAcAdapter,
}

/// The decision core of an auto run: apply when the machine just went on
/// battery and nothing is outstanding, revert when it is back on mains
/// with a journal outstanding, and otherwise do nothing. Active
/// inhibitors shrink or skip the apply per the configured scope.
pub fn plan_auto_step(
    ac: &AcInfo,
    has_profile: bool,
    state_exists: bool,
    scope: ApplyScope,
) -> (r: AutoStep)
    ensures
        r == if !ac.found {
            AutoStep::NoAcAdapter
        } else if !has_profile {
            AutoStep::NoProfile
        } else if ac.found && !ac.online && !state_exists {
            if scope == ApplyScope::Skip {
                AutoStep::NoOp
            } else {
                (AutoStep::Apply { reduced: scope == ApplyScope::Reduced })
            }
        } else if ac.found && ac.online && state_exists {
            AutoStep::Revert
        } else {
            AutoStep::NoOp
        },
{
    if !ac.found {
        return AutoStep::NoAcAdapter;
    }
    if !has_profile {
        return AutoStep::NoProfile;
    }
    if ac.is_on_battery() && !state_exists {
        if scope == ApplyScope::Skip {
            return AutoStep::NoOp;
        }
        return AutoStep::Apply { reduced: scope == ApplyScope::Reduced };
    }
    if ac.is_on_ac() && state_exists {
        return AutoStep::Revert;
    }
    AutoStep::NoOp
}

/// The udev rule that triggers an auto run on every power-supply change,
/// leaving Bluetooth peripheral batteries out.
pub fn udev_rule_content(aggressive: bool) -> (r: String)
    ensures
        aggressive ==> r@
            == "# Managed by bop - do not edit\nACTION==\"change\", SUBSYSTEM==\"power_supply\", KERNEL!=\"hidpp_battery*\", RUN+=\"/usr/bin/bop --aggressive auto\"\n"@,
        !aggressive ==> r@
            == "# Managed by bop - do not edit\nACTION==\"change\", SUBSYSTEM==\"power_supply\", KERNEL!=\"hidpp_battery*\", RUN+=\"/usr/bin/bop auto\"\n"@,
{
    if aggressive {
        "# Managed by bop - do not edit\nACTION==\"change\", SUBSYSTEM==\"power_supply\", KERNEL!=\"hidpp_battery*\", RUN+=\"/usr/bin/bop --aggressive auto\"\n".to_owned()
    } else {
        "# Managed by bop - do not edit\nACTION==\"change\", SUBSYSTEM==\"power_supply\", KERNEL!=\"hidpp_battery*\", RUN+=\"/usr/bin/bop auto\"\n".to_owned()
    }
}

} // verus!
