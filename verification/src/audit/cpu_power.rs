//! CPU and platform-profile audit rules.

use vstd::prelude::*;
use crate::audit::{new_finding, Finding, FindingView, Severity};
use crate::detect::HardwareInfo;
use crate::text;

verus! {

/// The finding emitted when the scaling driver is not `amd-pstate`.
pub open spec fn pstate_missing_finding(driver: Seq<char>) -> FindingView {
    FindingView {
        current_value: driver,
        recommended_value: "amd-pstate-epp"@,
        impact: "~2-5W savings; enables fine-grained energy/performance tuning"@,
        path: Some("cpu0/cpufreq/scaling_driver"@),
        weight: 9,
        ..new_finding(
            Severity::High,
            "CPU"@,
            "Using '"@ + driver + "' instead of amd-pstate - EPP unavailable"@,
        )
    }
}

/// The finding emitted when `amd-pstate` runs in active mode.
pub open spec fn pstate_active_finding() -> FindingView {
    FindingView {
        current_value: "active"@,
        recommended_value: "Experiment with guided mode (kernel param amd_pstate=guided)"@,
        impact: "Potentially 1-2W better idle power (varies by workload)"@,
        path: Some("sys/devices/system/cpu/amd_pstate/status"@),
        weight: 0,
        ..new_finding(
            Severity::Info,
            "CPU"@,
            "amd-pstate in active mode - guided or passive may improve idle power"@,
        )
    }
}

/// The finding an energy-performance preference earns, if any.
pub open spec fn epp_finding(epp: Seq<char>) -> Seq<FindingView> {
    if epp == "performance"@ {
        seq![
            FindingView {
                current_value: "performance"@,
                recommended_value: "balance_power"@,
                impact: "~2-3W savings"@,
                path: Some("cpu*/cpufreq/energy_performance_preference"@),
                weight: 8,
                ..new_finding(
                    Severity::High,
                    "CPU"@,
                    "EPP set to performance - maximum power consumption"@,
                )
            },
        ]
    } else if epp == "balance_performance"@ {
        seq![
            FindingView {
                current_value: "balance_performance"@,
                recommended_value: "balance_power"@,
                impact: "~1-3W savings"@,
                path: Some("cpu*/cpufreq/energy_performance_preference"@),
                weight: 6,
                ..new_finding(
                    Severity::Medium,
                    "CPU"@,
                    "EPP at balance_performance - not optimal for battery"@,
                )
            },
        ]
    } else if epp == "balance_power"@ || epp == "power"@ {
        Seq::empty()
    } else {
        seq![
            FindingView {
                current_value: epp,
                recommended_value: "balance_power"@,
                impact: "Unknown"@,
                path: None,
                weight: 1,
                ..new_finding(Severity::Info, "CPU"@, "Unusual EPP value: "@ + epp)
            },
        ]
    }
}

/// The finding a platform profile earns, if any.
pub open spec fn profile_finding(profile: Seq<char>) -> Seq<FindingView> {
    if profile == "performance"@ {
        seq![
            FindingView {
                current_value: "performance"@,
                recommended_value: "low-power"@,
                impact: "~1-2W savings at idle, lower TDP cap"@,
                path: Some("/sys/firmware/acpi/platform_profile"@),
                weight: 7,
                ..new_finding(
                    Severity::High,
                    "CPU"@,
                    "Platform profile set to performance (TDP: 45W)"@,
                )
            },
        ]
    } else if profile == "balanced"@ {
        seq![
            FindingView {
                current_value: "balanced"@,
                recommended_value: "low-power"@,
                impact: "~0.5-1W savings"@,
                path: Some("/sys/firmware/acpi/platform_profile"@),
                weight: 3,
                ..new_finding(
                    Severity::Low,
                    "CPU"@,
                    "Platform profile at balanced - could save more on battery"@,
                )
            },
        ]
    } else {
        Seq::empty()
    }
}

/// The finding a governor earns under `amd-pstate`, if any.
pub open spec fn governor_finding(governor: Seq<char>) -> Seq<FindingView> {
    if governor != "powersave"@ {
        seq![
            FindingView {
                current_value: governor,
                recommended_value: "powersave"@,
                impact: "amd-pstate uses EPP for power/perf balance; powersave governor is correct"@,
                path: Some("cpu*/cpufreq/scaling_governor"@),
                weight: 4,
                ..new_finding(
                    Severity::Medium,
                    "CPU"@,
                    "Governor '"@ + governor + "' suboptimal with amd-pstate"@,
                )
            },
        ]
    } else {
        Seq::empty()
    }
}

/// Whether the CPU is AMD without the `amd-pstate` driver.
pub open spec fn amd_without_pstate(hw: HardwareInfo) -> bool {
    hw.cpu.vendor is Some && hw.cpu.vendor->0@ == "AuthenticAMD"@ && !(hw.cpu.scaling_driver
        is Some && text::has_prefix(hw.cpu.scaling_driver->0@, "amd-pstate"@))
}

/// Whether the `amd-pstate` driver runs in active mode.
pub open spec fn pstate_active(hw: HardwareInfo) -> bool {
    hw.cpu.scaling_driver is Some && text::has_prefix(hw.cpu.scaling_driver->0@, "amd-pstate"@)
        && crate::detect::dmi::opt_view(hw.cpu.amd_pstate_mode) == Some("active"@)
}

/// All the CPU findings this rule emits, in order.
pub open spec fn cpu_findings(hw: HardwareInfo) -> Seq<FindingView> {
    let part1: Seq<FindingView> = if amd_without_pstate(hw) {
        seq![
            pstate_missing_finding(
                match hw.cpu.scaling_driver {
                    Some(d) => d@,
                    None => "unknown"@,
                },
            ),
        ]
    } else {
        Seq::empty()
    };
    let part2: Seq<FindingView> = if pstate_active(hw) {
        seq![pstate_active_finding()]
    } else {
        Seq::empty()
    };
    let part3: Seq<FindingView> = match hw.cpu.epp {
        Some(e) => epp_finding(e@),
        None => Seq::empty(),
    };
    let part4: Seq<FindingView> = match hw.platform.platform_profile {
        Some(p) => profile_finding(p@),
        None => Seq::empty(),
    };
    let part5: Seq<FindingView> = if hw.cpu.governor is Some && hw.cpu.scaling_driver is Some
        && text::has_prefix(hw.cpu.scaling_driver->0@, "amd-pstate"@) {
        governor_finding(hw.cpu.governor->0@)
    } else {
        Seq::empty()
    };
    part1 + part2 + part3 + part4 + part5
}

/// Audits the CPU driver, its mode, the energy-performance preference,
/// the platform profile and the governor.
pub fn check(hw: &HardwareInfo) -> (r: Vec<Finding>)
    ensures
        crate::audit::findings_view(r@) == cpu_findings(*hw),
{
    let mut findings: Vec<Finding> = Vec::new();
    let ghost target = cpu_findings(*hw);
    assert(crate::audit::findings_view(findings@) =~= Seq::<FindingView>::empty());

    if hw.cpu.is_amd() && !hw.cpu.is_amd_pstate() {
        let driver: String = match &hw.cpu.scaling_driver {
            Some(d) => d.clone(),
            None => "unknown".to_owned(),
        };
        let desc = text::concat3(
            "Using '",
            driver.as_str(),
            "' instead of amd-pstate - EPP unavailable",
        );
        let f = Finding::new(Severity::High, "CPU", desc).current(driver).recommended(
            "amd-pstate-epp".to_owned(),
        ).impact(
            "~2-5W savings; enables fine-grained energy/performance tuning".to_owned(),
        ).path("cpu0/cpufreq/scaling_driver".to_owned()).weight(9);
        findings.push(f);
    }

    if hw.cpu.is_amd_pstate() && text::opt_is(&hw.cpu.amd_pstate_mode, "active") {
        let f = Finding::new(
            Severity::Info,
            "CPU",
            "amd-pstate in active mode - guided or passive may improve idle power".to_owned(),
        ).current("active".to_owned()).recommended(
            "Experiment with guided mode (kernel param amd_pstate=guided)".to_owned(),
        ).impact("Potentially 1-2W better idle power (varies by workload)".to_owned()).path(
            "sys/devices/system/cpu/amd_pstate/status".to_owned(),
        ).weight(0);
        findings.push(f);
    }

    match &hw.cpu.epp {
        Some(epp) => {
            if text::str_eq(epp.as_str(), "performance") {
                findings.push(
                    Finding::new(
                        Severity::High,
                        "CPU",
                        "EPP set to performance - maximum power consumption".to_owned(),
                    ).current("performance".to_owned()).recommended(
                        "balance_power".to_owned(),
                    ).impact("~2-3W savings".to_owned()).path(
                        "cpu*/cpufreq/energy_performance_preference".to_owned(),
                    ).weight(8),
                );
            } else if text::str_eq(epp.as_str(), "balance_performance") {
                findings.push(
                    Finding::new(
                        Severity::Medium,
                        "CPU",
                        "EPP at balance_performance - not optimal for battery".to_owned(),
                    ).current("balance_performance".to_owned()).recommended(
                        "balance_power".to_owned(),
                    ).impact("~1-3W savings".to_owned()).path(
                        "cpu*/cpufreq/energy_performance_preference".to_owned(),
                    ).weight(6),
                );
            } else if text::str_eq(epp.as_str(), "balance_power") || text::str_eq(
                epp.as_str(),
                "power",
            ) {
            } else {
                findings.push(
                    Finding::new(
                        Severity::Info,
                        "CPU",
                        text::concat("Unusual EPP value: ", epp.as_str()),
                    ).current(epp.clone()).recommended("balance_power".to_owned()).impact(
                        "Unknown".to_owned(),
                    ).weight(1),
                );
            }
        },
        None => {},
    }

    match &hw.platform.platform_profile {
        Some(profile) => {
            if text::str_eq(profile.as_str(), "performance") {
                findings.push(
                    Finding::new(
                        Severity::High,
                        "CPU",
                        "Platform profile set to performance (TDP: 45W)".to_owned(),
                    ).current("performance".to_owned()).recommended(
                        "low-power".to_owned(),
                    ).impact("~1-2W savings at idle, lower TDP cap".to_owned()).path(
                        "/sys/firmware/acpi/platform_profile".to_owned(),
                    ).weight(7),
                );
            } else if text::str_eq(profile.as_str(), "balanced") {
                findings.push(
                    Finding::new(
                        Severity::Low,
                        "CPU",
                        "Platform profile at balanced - could save more on battery".to_owned(),
                    ).current("balanced".to_owned()).recommended("low-power".to_owned()).impact(
                        "~0.5-1W savings".to_owned(),
                    ).path("/sys/firmware/acpi/platform_profile".to_owned()).weight(3),
                );
            }
        },
        None => {},
    }

    match &hw.cpu.governor {
        Some(governor) => {
            if hw.cpu.is_amd_pstate() && !text::str_eq(governor.as_str(), "powersave") {
                let desc = text::concat3(
                    "Governor '",
                    governor.as_str(),
                    "' suboptimal with amd-pstate",
                );
                findings.push(
                    Finding::new(Severity::Medium, "CPU", desc).current(
                        governor.clone(),
                    ).recommended("powersave".to_owned()).impact(
                        "amd-pstate uses EPP for power/perf balance; powersave governor is correct".to_owned(),
                    ).path("cpu*/cpufreq/scaling_governor".to_owned()).weight(4),
                );
            }
        },
        None => {},
    }

    proof {
        assert(crate::audit::findings_view(findings@) =~= target);
    }
    findings
}

} // verus!
