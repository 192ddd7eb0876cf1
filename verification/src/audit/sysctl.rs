//! Kernel sysctl audit rules.

use vstd::prelude::*;
use crate::audit::{new_finding, Finding, FindingView, Severity};
use crate::fs::SysfsRoot;
use crate::text;

verus! {

/// All the sysctl findings, in order: the NMI watchdog, then the dirty
/// writeback interval.
pub open spec fn sysctl_findings(fsv: SysfsRoot) -> Seq<FindingView> {
    let part1: Seq<FindingView> = if fsv.trimmed_at("proc/sys/kernel/nmi_watchdog"@) == Some(
        "1"@,
    ) {
        seq![
            FindingView {
                current_value: "1"@,
                recommended_value: "0"@,
                impact: "~0.1-0.5W savings"@,
                path: Some("/proc/sys/kernel/nmi_watchdog"@),
                weight: 4,
                ..new_finding(
                    Severity::Medium,
                    "Kernel"@,
                    "NMI watchdog enabled - generates interrupts that prevent deep C-states"@,
                )
            },
        ]
    } else {
        Seq::empty()
    };
    let part2: Seq<FindingView> = match fsv.trimmed_at(
        "proc/sys/vm/dirty_writeback_centisecs"@,
    ) {
        Some(v) => if (match text::parse_u32_seq(v) {
            Some(n) => n as int,
            None => 0,
        }) < 1500 {
            seq![
                FindingView {
                    current_value: v,
                    recommended_value: "1500"@,
                    impact: "Reduces storage wakeups (minor savings on NVMe)"@,
                    path: Some("/proc/sys/vm/dirty_writeback_centisecs"@),
                    weight: 2,
                    ..new_finding(
                        Severity::Low,
                        "Kernel"@,
                        "Disk writeback interval too frequent - wakes storage unnecessarily"@,
                    )
                },
            ]
        } else {
            Seq::empty()
        },
        None => Seq::empty(),
    };
    part1 + part2
}

/// Audits the NMI watchdog and the dirty-writeback interval.
pub fn check(fs: &SysfsRoot) -> (r: Vec<Finding>)
    ensures
        crate::audit::findings_view(r@) == sysctl_findings(*fs),
{
    let mut findings: Vec<Finding> = Vec::new();
    let ghost target = sysctl_findings(*fs);
    assert(crate::audit::findings_view(findings@) =~= Seq::<FindingView>::empty());

    let nmi = fs.read_opt("proc/sys/kernel/nmi_watchdog");
    if text::opt_is(&nmi, "1") {
        findings.push(
            Finding::new(
                Severity::Medium,
                "Kernel",
                "NMI watchdog enabled - generates interrupts that prevent deep C-states".to_owned(),
            ).current("1".to_owned()).recommended("0".to_owned()).impact(
                "~0.1-0.5W savings".to_owned(),
            ).path("/proc/sys/kernel/nmi_watchdog".to_owned()).weight(4),
        );
    }

    match fs.read_opt("proc/sys/vm/dirty_writeback_centisecs") {
        Some(val) => {
            let n: u32 = match text::parse_u32(val.as_str()) {
                Some(v) => v,
                None => 0,
            };
            if n < 1500 {
                findings.push(
                    Finding::new(
                        Severity::Low,
                        "Kernel",
                        "Disk writeback interval too frequent - wakes storage unnecessarily".to_owned(),
                    ).current(val).recommended("1500".to_owned()).impact(
                        "Reduces storage wakeups (minor savings on NVMe)".to_owned(),
                    ).path("/proc/sys/vm/dirty_writeback_centisecs".to_owned()).weight(2),
                );
            }
        },
        None => {},
    }

    proof {
        assert(crate::audit::findings_view(findings@) =~= target);
    }
    findings
}

} // verus!
