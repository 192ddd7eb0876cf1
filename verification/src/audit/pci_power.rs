//! PCIe link-power and runtime-PM audit rules.

use vstd::prelude::*;
use crate::audit::{new_finding, Finding, FindingView, Severity};
use crate::detect::pci::{devices_view, PciDeviceView};
use crate::detect::HardwareInfo;
use crate::text;

verus! {

/// The finding the ASPM policy earns, given the aggressiveness target.
pub open spec fn aspm_findings(policy: Seq<char>, aggressive: bool) -> Seq<FindingView> {
    let target: Seq<char> = if aggressive {
        "powersupersave"@
    } else {
        "powersave"@
    };
    if policy == "default"@ {
        seq![
            FindingView {
                current_value: "default"@,
                recommended_value: target,
                impact: "~0.5-1W savings from PCIe link power management"@,
                path: Some("/sys/module/pcie_aspm/parameters/policy"@),
                weight: 6,
                ..new_finding(
                    Severity::Medium,
                    "PCIe"@,
                    "ASPM policy at 'default' - not using link sleep states"@,
                )
            },
        ]
    } else if policy == "performance"@ {
        seq![
            FindingView {
                current_value: "performance"@,
                recommended_value: target,
                impact: "~1-2W savings from PCIe link power management"@,
                path: Some("/sys/module/pcie_aspm/parameters/policy"@),
                weight: 8,
                ..new_finding(
                    Severity::High,
                    "PCIe"@,
                    "ASPM disabled (performance mode) - PCIe links always active"@,
                )
            },
        ]
    } else if policy == "powersave"@ && aggressive {
        seq![
            FindingView {
                current_value: "powersave"@,
                recommended_value: "powersupersave"@,
                impact: "~0.2-0.5W additional savings (may cause WiFi/NVMe issues)"@,
                path: Some("/sys/module/pcie_aspm/parameters/policy"@),
                weight: 3,
                ..new_finding(
                    Severity::Low,
                    "PCIe"@,
                    "ASPM at powersave - powersupersave enables deeper L1.1/L1.2 substates"@,
                )
            },
        ]
    } else {
        Seq::empty()
    }
}

/// How many devices are not on `auto` runtime power management.
pub open spec fn non_auto_count(devs: Seq<PciDeviceView>) -> int {
    devs.filter(|d: PciDeviceView| d.runtime_pm != Some("auto"@)).len() as int
}

/// All the PCIe findings, in order.
pub open spec fn pci_findings(hw: HardwareInfo, aggressive: bool) -> Seq<FindingView> {
    let part1: Seq<FindingView> = match hw.pci.aspm_policy {
        Some(p) => aspm_findings(p@, aggressive),
        None => Seq::empty(),
    };
    let n = non_auto_count(devices_view(hw.pci.devices@));
    let part2: Seq<FindingView> = if n > 0 {
        seq![
            FindingView {
                current_value: "devices set to 'on'"@,
                recommended_value: "All devices set to 'auto'"@,
                impact: "~0.5W savings from idle device power gating"@,
                path: Some("/sys/bus/pci/devices/*/power/control"@),
                weight: 5,
                ..new_finding(
                    Severity::Medium,
                    "PCIe"@,
                    "some PCI devices not using runtime power management"@,
                )
            },
        ]
    } else {
        Seq::empty()
    };
    part1 + part2
}

/// Audits the ASPM policy against the safe target.
pub fn check(hw: &HardwareInfo) -> (r: Vec<Finding>)
    ensures
        crate::audit::findings_view(r@) == pci_findings(*hw, false),
{
    check_with_opts(hw, false)
}

/// Audits the ASPM policy against the deepest link states.
pub fn check_aggressive(hw: &HardwareInfo) -> (r: Vec<Finding>)
    ensures
        crate::audit::findings_view(r@) == pci_findings(*hw, true),
{
    check_with_opts(hw, true)
}

/// Audits the ASPM policy and per-device runtime power management.
pub fn check_with_opts(hw: &HardwareInfo, aggressive: bool) -> (r: Vec<Finding>)
    ensures
        crate::audit::findings_view(r@) == pci_findings(*hw, aggressive),
{
    let mut findings: Vec<Finding> = Vec::new();
    let ghost target = pci_findings(*hw, aggressive);
    assert(crate::audit::findings_view(findings@) =~= Seq::<FindingView>::empty());

    let target_policy: &str = if aggressive {
        "powersupersave"
    } else {
        "powersave"
    };
    match &hw.pci.aspm_policy {
        Some(policy) => {
            if text::str_eq(policy.as_str(), "default") {
                findings.push(
                    Finding::new(
                        Severity::Medium,
                        "PCIe",
                        "ASPM policy at 'default' - not using link sleep states".to_owned(),
                    ).current("default".to_owned()).recommended(
                        target_policy.to_owned(),
                    ).impact("~0.5-1W savings from PCIe link power management".to_owned()).path(
                        "/sys/module/pcie_aspm/parameters/policy".to_owned(),
                    ).weight(6),
                );
            } else if text::str_eq(policy.as_str(), "performance") {
                findings.push(
                    Finding::new(
                        Severity::High,
                        "PCIe",
                        "ASPM disabled (performance mode) - PCIe links always active".to_owned(),
                    ).current("performance".to_owned()).recommended(
                        target_policy.to_owned(),
                    ).impact("~1-2W savings from PCIe link power management".to_owned()).path(
                        "/sys/module/pcie_aspm/parameters/policy".to_owned(),
                    ).weight(8),
                );
            } else if text::str_eq(policy.as_str(), "powersave") && aggressive {
                findings.push(
                    Finding::new(
                        Severity::Low,
                        "PCIe",
                        "ASPM at powersave - powersupersave enables deeper L1.1/L1.2 substates".to_owned(),
                    ).current("powersave".to_owned()).recommended(
                        "powersupersave".to_owned(),
                    ).impact(
                        "~0.2-0.5W additional savings (may cause WiFi/NVMe issues)".to_owned(),
                    ).path("/sys/module/pcie_aspm/parameters/policy".to_owned()).weight(3),
                );
            }
        },
        None => {},
    }

    let non_auto = hw.pci.devices_without_runtime_pm();
    proof {
        devices_view(hw.pci.devices@).lemma_filter_len(
            |d: PciDeviceView| d.runtime_pm != Some("auto"@),
        );
    }
    if non_auto.len() > 0 {
        findings.push(
            Finding::new(
                Severity::Medium,
                "PCIe",
                "some PCI devices not using runtime power management".to_owned(),
            ).current("devices set to 'on'".to_owned()).recommended(
                "All devices set to 'auto'".to_owned(),
            ).impact("~0.5W savings from idle device power gating".to_owned()).path(
                "/sys/bus/pci/devices/*/power/control".to_owned(),
            ).weight(5),
        );
    }

    proof {
        assert(crate::audit::findings_view(findings@) =~= target);
    }
    findings
}

} // verus!
