//! Sleep audit rules: spurious wake sources and the suspend flavour.

use vstd::prelude::*;
use crate::audit::{new_finding, Finding, FindingView, Severity};
use crate::detect::platform::{sources_view, WakeupSourceView};
use crate::detect::HardwareInfo;
use crate::fs::SysfsRoot;
use crate::text;
use crate::wake;

verus! {

/// Whether a wake source's controller has USB devices attached, traced
/// through its `pci:` node.
pub open spec fn source_has_devices(fsv: SysfsRoot, s: WakeupSourceView) -> bool {
    match s.sysfs_node {
        Some(n) => if text::has_prefix(n, "pci:"@) {
            wake::controller_devices_from(
                fsv,
                wake::usb_listing(fsv),
                n.subrange("pci:"@.len() as int, n.len() as int),
                0,
            )
        } else {
            false
        },
        None => false,
    }
}

/// Whether a source is enabled without need: not the essential `XHC0`
/// controller, and nothing attached behind it.
pub open spec fn is_unnecessary(fsv: SysfsRoot, s: WakeupSourceView) -> bool {
    s.enabled && s.device != "XHC0"@ && !source_has_devices(fsv, s)
}

/// The devices of the unnecessarily enabled sources, in order.
pub open spec fn unnecessary_from(
    fsv: SysfsRoot,
    srcs: Seq<WakeupSourceView>,
    i: int,
    acc: Seq<Seq<char>>,
) -> Seq<Seq<char>>
    decreases srcs.len() - i,
{
    if i < 0 || i >= srcs.len() {
        acc
    } else if is_unnecessary(fsv, srcs[i]) {
        unnecessary_from(fsv, srcs, i + 1, acc.push(srcs[i].device))
    } else {
        unnecessary_from(fsv, srcs, i + 1, acc)
    }
}

/// All the sleep findings, in order: spurious wake sources, then a
/// suspend flavour other than `s2idle`.
pub open spec fn sleep_findings(hw: HardwareInfo, fsv: SysfsRoot) -> Seq<FindingView> {
    let unnecessary = unnecessary_from(
        fsv,
        sources_view(hw.platform.acpi_wakeup_sources@),
        0,
        Seq::empty(),
    );
    let part1: Seq<FindingView> = if unnecessary.len() > 0 {
        seq![
            FindingView {
                current_value: "Enabled: "@ + text::join_seq(unnecessary, ", "@),
                recommended_value: "Disable all except XHC0 (internal keyboard/BT)"@,
                impact: "Reduces spurious wakeups during sleep"@,
                path: Some("/proc/acpi/wakeup"@),
                weight: 6,
                ..new_finding(
                    Severity::Medium,
                    "Sleep"@,
                    "unnecessary ACPI wakeup sources enabled"@,
                )
            },
        ]
    } else {
        Seq::empty()
    };
    let part2: Seq<FindingView> = match hw.platform.mem_sleep {
        Some(m) => if m@ != "s2idle"@ {
            seq![
                FindingView {
                    current_value: m@,
                    recommended_value: "s2idle (for AMD platforms)"@,
                    impact: "s2idle is recommended for modern AMD; deep may work but has less testing"@,
                    path: Some("/sys/power/mem_sleep"@),
                    weight: 2,
                    ..new_finding(
                        Severity::Info,
                        "Sleep"@,
                        "System using deep sleep instead of s2idle"@,
                    )
                },
            ]
        } else {
            Seq::empty()
        },
        None => Seq::empty(),
    };
    part1 + part2
}

/// Audits wake sources and the suspend flavour.
pub fn check(hw: &HardwareInfo, fs: &SysfsRoot) -> (r: Vec<Finding>)
    ensures
        crate::audit::findings_view(r@) == sleep_findings(*hw, *fs),
{
    let mut findings: Vec<Finding> = Vec::new();
    let ghost target = sleep_findings(*hw, *fs);
    assert(crate::audit::findings_view(findings@) =~= Seq::<FindingView>::empty());

    let usb_devices: Vec<String> = match fs.list_dir("sys/bus/usb/devices") {
        Ok(d) => d,
        Err(_) => Vec::new(),
    };
    proof {
        if !fs.dir_present(fs.full("sys/bus/usb/devices"@)) {
            assert(text::views_of(usb_devices@) =~= Seq::<Seq<char>>::empty());
        }
    }
    let ghost sv = sources_view(hw.platform.acpi_wakeup_sources@);
    let mut unnecessary: Vec<String> = Vec::new();
    assert(text::views_of(unnecessary@) =~= Seq::<Seq<char>>::empty());
    let mut i: usize = 0;
    while i < hw.platform.acpi_wakeup_sources.len()
        invariant
            i <= hw.platform.acpi_wakeup_sources@.len(),
            sv == sources_view(hw.platform.acpi_wakeup_sources@),
            text::views_of(usb_devices@) == wake::usb_listing(*fs),
            unnecessary_from(*fs, sv, 0, Seq::empty()) == unnecessary_from(
                *fs,
                sv,
                i as int,
                text::views_of(unnecessary@),
            ),
        decreases hw.platform.acpi_wakeup_sources@.len() - i,
    {
        let source = &hw.platform.acpi_wakeup_sources[i];
        let mut unn: bool = false;
        if source.enabled && !text::str_eq(source.device.as_str(), "XHC0") {
            let attached = match &source.sysfs_node {
                Some(node) => {
                    if text::starts_with(node.as_str(), "pci:") {
                        let plen = "pci:".unicode_len();
                        let n = node.as_str().unicode_len();
                        let addr = text::substring_of(node.as_str(), plen, n);
                        wake::controller_has_devices_at(fs, &usb_devices, addr.as_str())
                    } else {
                        false
                    }
                },
                None => false,
            };
            if !attached {
                unn = true;
            }
        }
        proof {
            assert(unn == is_unnecessary(*fs, sv[i as int]));
        }
        if unn {
            let ghost before = text::views_of(unnecessary@);
            unnecessary.push(source.device.clone());
            assert(text::views_of(unnecessary@) =~= before.push(sv[i as int].device));
        }
        i = i + 1;
    }
    if unnecessary.len() > 0 {
        let joined = text::join(&unnecessary, ", ");
        findings.push(
            Finding::new(
                Severity::Medium,
                "Sleep",
                "unnecessary ACPI wakeup sources enabled".to_owned(),
            ).current(text::concat("Enabled: ", joined.as_str())).recommended(
                "Disable all except XHC0 (internal keyboard/BT)".to_owned(),
            ).impact("Reduces spurious wakeups during sleep".to_owned()).path(
                "/proc/acpi/wakeup".to_owned(),
            ).weight(6),
        );
    }

    match &hw.platform.mem_sleep {
        Some(m) => {
            if !text::str_eq(m.as_str(), "s2idle") {
                findings.push(
                    Finding::new(
                        Severity::Info,
                        "Sleep",
                        "System using deep sleep instead of s2idle".to_owned(),
                    ).current(m.clone()).recommended(
                        "s2idle (for AMD platforms)".to_owned(),
                    ).impact(
                        "s2idle is recommended for modern AMD; deep may work but has less testing".to_owned(),
                    ).path("/sys/power/mem_sleep".to_owned()).weight(2),
                );
            }
        },
        None => {},
    }

    proof {
        assert(crate::audit::findings_view(findings@) =~= target);
    }
    findings
}

} // verus!
