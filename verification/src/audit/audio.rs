//! HDA audio power-save audit rules.

use vstd::prelude::*;
use crate::audit::{new_finding, Finding, FindingView, Severity};
use crate::fs::SysfsRoot;
use crate::text;

verus! {

/// The finding the `power_save` module parameter earns.
pub open spec fn power_save_findings(val: Seq<char>) -> Seq<FindingView> {
    if val == "0"@ {
        seq![
            FindingView {
                current_value: "0 (disabled)"@,
                recommended_value: "1 (1 second timeout)"@,
                impact: "~0.1-0.3W savings when audio idle"@,
                path: Some("sys/module/snd_hda_intel/parameters/power_save"@),
                weight: 2,
                ..new_finding(Severity::Low, "Audio"@, "HDA Intel power save disabled"@)
            },
        ]
    } else if val == "1"@ {
        Seq::empty()
    } else {
        seq![
            FindingView {
                current_value: val,
                recommended_value: "1"@,
                impact: "Standard value is 1 second"@,
                path: Some("sys/module/snd_hda_intel/parameters/power_save"@),
                weight: 1,
                ..new_finding(
                    Severity::Info,
                    "Audio"@,
                    "HDA power_save set to "@ + val + " (non-standard)"@,
                )
            },
        ]
    }
}

/// The finding the `power_save_controller` parameter earns.
pub open spec fn controller_findings(val: Seq<char>) -> Seq<FindingView> {
    if val == "N"@ {
        seq![
            FindingView {
                current_value: "N (disabled)"@,
                recommended_value: "Y (enabled)"@,
                impact: "Controller stays powered when idle"@,
                path: Some("sys/module/snd_hda_intel/parameters/power_save_controller"@),
                weight: 2,
                ..new_finding(Severity::Low, "Audio"@, "HDA controller power save disabled"@)
            },
        ]
    } else {
        Seq::empty()
    }
}

/// All the audio findings, in order.
pub open spec fn audio_findings(fsv: SysfsRoot) -> Seq<FindingView> {
    let part1: Seq<FindingView> = match fsv.trimmed_at(
        "sys/module/snd_hda_intel/parameters/power_save"@,
    ) {
        Some(v) => power_save_findings(v),
        None => Seq::empty(),
    };
    let part2: Seq<FindingView> = match fsv.trimmed_at(
        "sys/module/snd_hda_intel/parameters/power_save_controller"@,
    ) {
        Some(v) => controller_findings(v),
        None => Seq::empty(),
    };
    part1 + part2
}

/// Audits the HDA power-save module parameters.
pub fn check(fs: &SysfsRoot) -> (r: Vec<Finding>)
    ensures
        crate::audit::findings_view(r@) == audio_findings(*fs),
{
    let mut findings: Vec<Finding> = Vec::new();
    let ghost target = audio_findings(*fs);
    assert(crate::audit::findings_view(findings@) =~= Seq::<FindingView>::empty());

    match fs.read_opt("sys/module/snd_hda_intel/parameters/power_save") {
        Some(val) => {
            if text::str_eq(val.as_str(), "0") {
                findings.push(
                    Finding::new(
                        Severity::Low,
                        "Audio",
                        "HDA Intel power save disabled".to_owned(),
                    ).current("0 (disabled)".to_owned()).recommended(
                        "1 (1 second timeout)".to_owned(),
                    ).impact("~0.1-0.3W savings when audio idle".to_owned()).path(
                        "sys/module/snd_hda_intel/parameters/power_save".to_owned(),
                    ).weight(2),
                );
            } else if text::str_eq(val.as_str(), "1") {
            } else {
                let desc = text::concat3("HDA power_save set to ", val.as_str(), " (non-standard)");
                findings.push(
                    Finding::new(Severity::Info, "Audio", desc).current(val).recommended(
                        "1".to_owned(),
                    ).impact("Standard value is 1 second".to_owned()).path(
                        "sys/module/snd_hda_intel/parameters/power_save".to_owned(),
                    ).weight(1),
                );
            }
        },
        None => {},
    }

    match fs.read_opt("sys/module/snd_hda_intel/parameters/power_save_controller") {
        Some(val) => {
            if text::str_eq(val.as_str(), "N") {
                findings.push(
                    Finding::new(
                        Severity::Low,
                        "Audio",
                        "HDA controller power save disabled".to_owned(),
                    ).current("N (disabled)".to_owned()).recommended(
                        "Y (enabled)".to_owned(),
                    ).impact("Controller stays powered when idle".to_owned()).path(
                        "sys/module/snd_hda_intel/parameters/power_save_controller".to_owned(),
                    ).weight(2),
                );
            }
        },
        None => {},
    }

    proof {
        assert(crate::audit::findings_view(findings@) =~= target);
    }
    findings
}

} // verus!
