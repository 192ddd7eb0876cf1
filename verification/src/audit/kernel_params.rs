//! Kernel-command-line audit rules.

use vstd::prelude::*;
use crate::audit::{new_finding, Finding, FindingView, Severity};
use crate::detect::{spec_has_kernel_param, spec_kernel_param_value, HardwareInfo};
use crate::text;

verus! {

/// The findings the EC-wakeup parameter earns.
pub open spec fn ec_findings(cmdline: Seq<char>) -> Seq<FindingView> {
    if !spec_has_kernel_param(cmdline, "acpi.ec_no_wakeup"@) {
        seq![
            FindingView {
                current_value: "unset"@,
                recommended_value: "acpi.ec_no_wakeup=1"@,
                impact: "~5-7% sleep drain reduction"@,
                path: Some("/proc/cmdline"@),
                weight: 9,
                ..new_finding(
                    Severity::High,
                    "Kernel"@,
                    "EC wakeup not disabled - causes high sleep drain"@,
                )
            },
        ]
    } else if spec_kernel_param_value(cmdline, "acpi.ec_no_wakeup"@) != Some("1"@) {
        seq![
            FindingView {
                current_value: match spec_kernel_param_value(cmdline, "acpi.ec_no_wakeup"@) {
                    Some(v) => v,
                    None => Seq::empty(),
                },
                recommended_value: "acpi.ec_no_wakeup=1"@,
                impact: "~5-7% sleep drain reduction"@,
                path: Some("/proc/cmdline"@),
                weight: 7,
                ..new_finding(Severity::Medium, "Kernel"@, "acpi.ec_no_wakeup not set to 1"@)
            },
        ]
    } else {
        Seq::empty()
    }
}

/// The finding the RTC-alarm parameter earns.
pub open spec fn rtc_findings(cmdline: Seq<char>) -> Seq<FindingView> {
    if !spec_has_kernel_param(cmdline, "rtc_cmos.use_acpi_alarm"@) {
        seq![
            FindingView {
                current_value: "unset"@,
                recommended_value: "rtc_cmos.use_acpi_alarm=1"@,
                impact: "Enables deeper CPU sleep states"@,
                path: Some("/proc/cmdline"@),
                weight: 5,
                ..new_finding(
                    Severity::Medium,
                    "Kernel"@,
                    "RTC ACPI alarm not enabled - prevents deepest sleep states"@,
                )
            },
        ]
    } else {
        Seq::empty()
    }
}

/// The finding a disabled NVMe APST earns.
pub open spec fn nvme_findings(cmdline: Seq<char>) -> Seq<FindingView> {
    if spec_kernel_param_value(cmdline, "nvme_core.default_ps_max_latency_us"@) == Some("0"@) {
        seq![
            FindingView {
                current_value: "nvme_core.default_ps_max_latency_us=0"@,
                recommended_value: "Remove parameter (let APST work normally)"@,
                impact: "~0.5-1W savings from NVMe power state transitions"@,
                path: Some("/proc/cmdline"@),
                weight: 5,
                ..new_finding(
                    Severity::Medium,
                    "Kernel"@,
                    "NVMe APST disabled - drive stays in highest power state"@,
                )
            },
        ]
    } else {
        Seq::empty()
    }
}

/// The findings the ABM level earns on an AMD GPU.
pub open spec fn abm_findings(hw: HardwareInfo) -> Seq<FindingView> {
    if !hw.gpu.spec_is_amd() {
        Seq::empty()
    } else {
        match spec_kernel_param_value(hw.kernel_cmdline@, "amdgpu.abmlevel"@) {
            None => seq![
                FindingView {
                    current_value: "unset (level 0)"@,
                    recommended_value: "amdgpu.abmlevel=3"@,
                    impact: "~0.5-1W display power saving"@,
                    path: Some("/proc/cmdline"@),
                    weight: 5,
                    ..new_finding(
                        Severity::Medium,
                        "Kernel"@,
                        "AMD Adaptive Backlight Management not enabled"@,
                    )
                },
            ],
            Some(v) => if (match text::parse_u32_seq(v) {
                Some(n) => n as int,
                None => 0,
            }) < 3 {
                seq![
                    FindingView {
                        current_value: "amdgpu.abmlevel="@ + v,
                        recommended_value: "amdgpu.abmlevel=3"@,
                        impact: "Higher levels save more display power"@,
                        path: Some("/proc/cmdline"@),
                        weight: 3,
                        ..new_finding(Severity::Low, "Kernel"@, "ABM level below recommended"@)
                    },
                ]
            } else {
                Seq::empty()
            },
        }
    }
}

/// All the kernel-parameter findings, in order.
pub open spec fn kernel_findings(hw: HardwareInfo) -> Seq<FindingView> {
    ec_findings(hw.kernel_cmdline@) + rtc_findings(hw.kernel_cmdline@) + nvme_findings(
        hw.kernel_cmdline@,
    ) + abm_findings(hw)
}

/// Audits the boot command line for power-relevant parameters.
pub fn check(hw: &HardwareInfo) -> (r: Vec<Finding>)
    ensures
        crate::audit::findings_view(r@) == kernel_findings(*hw),
{
    let mut findings: Vec<Finding> = Vec::new();
    let ghost target = kernel_findings(*hw);
    assert(crate::audit::findings_view(findings@) =~= Seq::<FindingView>::empty());

    if !hw.has_kernel_param("acpi.ec_no_wakeup") {
        findings.push(
            Finding::new(
                Severity::High,
                "Kernel",
                "EC wakeup not disabled - causes high sleep drain".to_owned(),
            ).current("unset".to_owned()).recommended(
                "acpi.ec_no_wakeup=1".to_owned(),
            ).impact("~5-7% sleep drain reduction".to_owned()).path(
                "/proc/cmdline".to_owned(),
            ).weight(9),
        );
    } else {
        let v = hw.kernel_param_value("acpi.ec_no_wakeup");
        if !text::opt_is(&v, "1") {
            let cur: String = match v {
                Some(s) => s,
                None => String::new(),
            };
            findings.push(
                Finding::new(
                    Severity::Medium,
                    "Kernel",
                    "acpi.ec_no_wakeup not set to 1".to_owned(),
                ).current(cur).recommended("acpi.ec_no_wakeup=1".to_owned()).impact(
                    "~5-7% sleep drain reduction".to_owned(),
                ).path("/proc/cmdline".to_owned()).weight(7),
            );
        }
    }

    if !hw.has_kernel_param("rtc_cmos.use_acpi_alarm") {
        findings.push(
            Finding::new(
                Severity::Medium,
                "Kernel",
                "RTC ACPI alarm not enabled - prevents deepest sleep states".to_owned(),
            ).current("unset".to_owned()).recommended(
                "rtc_cmos.use_acpi_alarm=1".to_owned(),
            ).impact("Enables deeper CPU sleep states".to_owned()).path(
                "/proc/cmdline".to_owned(),
            ).weight(5),
        );
    }

    let nvme = hw.kernel_param_value("nvme_core.default_ps_max_latency_us");
    if text::opt_is(&nvme, "0") {
        findings.push(
            Finding::new(
                Severity::Medium,
                "Kernel",
                "NVMe APST disabled - drive stays in highest power state".to_owned(),
            ).current("nvme_core.default_ps_max_latency_us=0".to_owned()).recommended(
                "Remove parameter (let APST work normally)".to_owned(),
            ).impact("~0.5-1W savings from NVMe power state transitions".to_owned()).path(
                "/proc/cmdline".to_owned(),
            ).weight(5),
        );
    }

    if hw.gpu.is_amd() {
        match hw.kernel_param_value("amdgpu.abmlevel") {
            None => {
                findings.push(
                    Finding::new(
                        Severity::Medium,
                        "Kernel",
                        "AMD Adaptive Backlight Management not enabled".to_owned(),
                    ).current("unset (level 0)".to_owned()).recommended(
                        "amdgpu.abmlevel=3".to_owned(),
                    ).impact("~0.5-1W display power saving".to_owned()).path(
                        "/proc/cmdline".to_owned(),
                    ).weight(5),
                );
            },
            Some(v) => {
                let level: u32 = match text::parse_u32(v.as_str()) {
                    Some(n) => n,
                    None => 0,
                };
                if level < 3 {
                    findings.push(
                        Finding::new(
                            Severity::Low,
                            "Kernel",
                            "ABM level below recommended".to_owned(),
                        ).current(text::concat("amdgpu.abmlevel=", v.as_str())).recommended(
                            "amdgpu.abmlevel=3".to_owned(),
                        ).impact("Higher levels save more display power".to_owned()).path(
                            "/proc/cmdline".to_owned(),
                        ).weight(3),
                    );
                }
            },
        }
    }

    proof {
        assert(crate::audit::findings_view(findings@) =~= target);
    }
    findings
}

} // verus!
