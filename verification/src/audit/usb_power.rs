//! USB autosuspend audit rules.

use vstd::prelude::*;
use crate::audit::{new_finding, Finding, FindingView, Severity};
use crate::fs::SysfsRoot;
use crate::text;

verus! {

/// Whether the product string marks an input device that stays awake in
/// the safe mode.
pub open spec fn is_input_product(p: Seq<char>) -> bool {
    ||| text::contains_ci_seq(p, "keyboard"@)
    ||| text::contains_ci_seq(p, "mouse"@)
    ||| text::contains_ci_seq(p, "trackpad"@)
    ||| text::contains_ci_seq(p, "touchpad"@)
}

/// Whether the product string marks an expansion or display adapter.
pub open spec fn is_expansion_product(p: Seq<char>) -> bool {
    ||| text::contains_ci_seq(p, "expansion"@)
    ||| text::contains_ci_seq(p, "displayport"@)
    ||| text::contains_ci_seq(p, "hdmi"@)
}

/// Whether one USB entry counts against autosuspend: a real device (no
/// `:`), its `power/control` off `auto`, and — outside aggressive mode —
/// not an input or expansion device.
pub open spec fn counts_against(fsv: SysfsRoot, dev: Seq<char>, aggressive: bool) -> bool {
    let base = "sys/bus/usb/devices/"@ + dev;
    &&& text::find_char_from(dev, 0, ':') == dev.len()
    &&& fsv.trimmed_at(base + "/power/control"@) is Some
    &&& fsv.trimmed_at(base + "/power/control"@) != Some("auto"@)
    &&& (aggressive || ({
        let p = match fsv.trimmed_at(base + "/product"@) {
            Some(v) => v,
            None => Seq::empty(),
        };
        !is_input_product(p) && !is_expansion_product(p)
    }))
}

/// Whether some listed USB entry counts against autosuspend.
pub open spec fn any_counts_from(
    fsv: SysfsRoot,
    devs: Seq<Seq<char>>,
    aggressive: bool,
    i: int,
) -> bool
    decreases devs.len() - i,
{
    if i < 0 || i >= devs.len() {
        false
    } else if counts_against(fsv, devs[i], aggressive) {
        true
    } else {
        any_counts_from(fsv, devs, aggressive, i + 1)
    }
}

/// All the USB findings: one when some device skips autosuspend.
pub open spec fn usb_findings(fsv: SysfsRoot, aggressive: bool) -> Seq<FindingView> {
    let devs = if fsv.dir_present(fsv.full("sys/bus/usb/devices"@)) {
        fsv.listing(fsv.full("sys/bus/usb/devices"@))
    } else {
        Seq::empty()
    };
    if any_counts_from(fsv, devs, aggressive, 0) {
        seq![
            FindingView {
                current_value: "devices set to 'on'"@,
                recommended_value: "All devices set to 'auto'"@,
                impact: if aggressive {
                    "Power savings from idle USB devices (may cause input latency)"@
                } else {
                    "Minor power savings from idle USB devices"@
                },
                path: Some("/sys/bus/usb/devices/*/power/control"@),
                weight: 2,
                ..new_finding(
                    Severity::Low,
                    "USB"@,
                    "some USB devices not using autosuspend"@,
                )
            },
        ]
    } else {
        Seq::empty()
    }
}

/// Audits USB autosuspend, skipping input and expansion devices.
pub fn check(fs: &SysfsRoot) -> (r: Vec<Finding>)
    ensures
        crate::audit::findings_view(r@) == usb_findings(*fs, false),
{
    check_with_opts(fs, false)
}

/// Audits USB autosuspend for every device.
pub fn check_aggressive(fs: &SysfsRoot) -> (r: Vec<Finding>)
    ensures
        crate::audit::findings_view(r@) == usb_findings(*fs, true),
{
    check_with_opts(fs, true)
}

/// Audits USB autosuspend with the given aggressiveness.
pub fn check_with_opts(fs: &SysfsRoot, aggressive: bool) -> (r: Vec<Finding>)
    ensures
        crate::audit::findings_view(r@) == usb_findings(*fs, aggressive),
{
    let mut findings: Vec<Finding> = Vec::new();
    let ghost target = usb_findings(*fs, aggressive);
    assert(crate::audit::findings_view(findings@) =~= Seq::<FindingView>::empty());
    let mut found: bool = false;
    match fs.list_dir("sys/bus/usb/devices") {
        Ok(devices) => {
            let ghost dv = text::views_of(devices@);
            let mut i: usize = 0;
            while i < devices.len()
                invariant
                    i <= devices@.len(),
                    dv == text::views_of(devices@),
                    dv == fs.listing(fs.full("sys/bus/usb/devices"@)),
                    found ==> any_counts_from(*fs, dv, aggressive, 0),
                    !found ==> any_counts_from(*fs, dv, aggressive, 0) == any_counts_from(
                        *fs,
                        dv,
                        aggressive,
                        i as int,
                    ),
                decreases devices@.len() - i,
            {
                if !found {
                    let d = devices[i].as_str();
                    let is_iface = {
                        let c = text::find_char(d, ':');
                        c < d.unicode_len()
                    };
                    if !is_iface {
                        let base = text::concat("sys/bus/usb/devices/", d);
                        assert(base@ =~= "sys/bus/usb/devices/"@ + dv[i as int]);
                        match fs.read_opt(text::concat(base.as_str(), "/power/control").as_str()) {
                            Some(control) => {
                                if !text::str_eq(control.as_str(), "auto") {
                                    if aggressive {
                                        found = true;
                                        assert(counts_against(*fs, dv[i as int], aggressive));
                                    } else {
                                        let product: String = match fs.read_opt(
                                            text::concat(base.as_str(), "/product").as_str(),
                                        ) {
                                            Some(p) => p,
                                            None => String::new(),
                                        };
                                        let is_input = text::contains_ci(
                                            product.as_str(),
                                            "keyboard",
                                        ) || text::contains_ci(product.as_str(), "mouse")
                                            || text::contains_ci(product.as_str(), "trackpad")
                                            || text::contains_ci(product.as_str(), "touchpad");
                                        let is_expansion = text::contains_ci(
                                            product.as_str(),
                                            "expansion",
                                        ) || text::contains_ci(product.as_str(), "displayport")
                                            || text::contains_ci(product.as_str(), "hdmi");
                                        if !is_input && !is_expansion {
                                            found = true;
                                            assert(counts_against(*fs, dv[i as int], aggressive));
                                        }
                                    }
                                }
                            },
                            None => {},
                        }
                    }
                }
                proof {
                    if !found {
                        assert(!counts_against(*fs, dv[i as int], aggressive));
                    }
                }
                i = i + 1;
            }
        },
        Err(_) => {},
    }
    proof {
        if !fs.dir_present(fs.full("sys/bus/usb/devices"@)) {
            assert(!any_counts_from(*fs, Seq::<Seq<char>>::empty(), aggressive, 0));
        }
    }
    if found {
        findings.push(
            Finding::new(
                Severity::Low,
                "USB",
                "some USB devices not using autosuspend".to_owned(),
            ).current("devices set to 'on'".to_owned()).recommended(
                "All devices set to 'auto'".to_owned(),
            ).impact(
                if aggressive {
                    "Power savings from idle USB devices (may cause input latency)".to_owned()
                } else {
                    "Minor power savings from idle USB devices".to_owned()
                },
            ).path("/sys/bus/usb/devices/*/power/control".to_owned()).weight(2),
        );
    }
    proof {
        assert(crate::audit::findings_view(findings@) =~= target);
    }
    findings
}

} // verus!
