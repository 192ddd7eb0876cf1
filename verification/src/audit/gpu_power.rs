//! GPU power-management audit rules.

use vstd::prelude::*;
use crate::audit::{new_finding, Finding, FindingView, Severity};
use crate::detect::HardwareInfo;
use crate::text;

verus! {

/// All the GPU findings: on AMD parts, a DPM level forced away from
/// `auto`.
pub open spec fn gpu_findings(hw: HardwareInfo) -> Seq<FindingView> {
    if !hw.gpu.spec_is_amd() {
        Seq::empty()
    } else {
        match hw.gpu.dpm_level {
            Some(d) => if d@ != "auto"@ {
                seq![
                    FindingView {
                        current_value: d@,
                        recommended_value: "auto"@,
                        impact: "GPU may not enter low-power states"@,
                        path: Some("power_dpm_force_performance_level"@),
                        weight: 5,
                        ..new_finding(
                            Severity::Medium,
                            "GPU"@,
                            "GPU DPM level '"@ + d@ + "' instead of auto"@,
                        )
                    },
                ]
            } else {
                Seq::empty()
            },
            None => Seq::empty(),
        }
    }
}

/// Audits the AMD GPU's dynamic power-management level.
pub fn check(hw: &HardwareInfo) -> (r: Vec<Finding>)
    ensures
        crate::audit::findings_view(r@) == gpu_findings(*hw),
{
    let mut findings: Vec<Finding> = Vec::new();
    let ghost target = gpu_findings(*hw);
    assert(crate::audit::findings_view(findings@) =~= Seq::<FindingView>::empty());
    if hw.gpu.is_amd() {
        match &hw.gpu.dpm_level {
            Some(dpm) => {
                if !text::str_eq(dpm.as_str(), "auto") {
                    let desc = text::concat3("GPU DPM level '", dpm.as_str(), "' instead of auto");
                    findings.push(
                        Finding::new(Severity::Medium, "GPU", desc).current(
                            dpm.clone(),
                        ).recommended("auto".to_owned()).impact(
                            "GPU may not enter low-power states".to_owned(),
                        ).path("power_dpm_force_performance_level".to_owned()).weight(5),
                    );
                }
            },
            None => {},
        }
    }
    proof {
        assert(crate::audit::findings_view(findings@) =~= target);
    }
    findings
}

} // verus!
