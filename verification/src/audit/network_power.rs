//! WiFi power-save audit rule.
//!
//! The live power-save state comes from the external `iw` tool; the shell
//! runs it and hands its standard output in, `None` when the tool could
//! not run.

use vstd::prelude::*;
use crate::audit::{new_finding, Finding, FindingView, Severity};
use crate::detect::HardwareInfo;
use crate::text;

verus! {

/// All the network findings: WiFi power save off, or an unknown state
/// when the tool was unavailable; nothing without a wireless interface.
pub open spec fn network_findings(hw: HardwareInfo, iw_output: Option<Seq<char>>) -> Seq<
    FindingView,
> {
    match hw.network.wifi_interface {
        Some(iface) => match iw_output {
            Some(out) => if text::contains_seq(out, "off"@) {
                seq![
                    FindingView {
                        current_value: "off"@,
                        recommended_value: "on"@,
                        impact: "~0.5W savings"@,
                        path: Some("iw dev "@ + iface@ + " set power_save on"@),
                        weight: 5,
                        ..new_finding(Severity::Medium, "Network"@, "WiFi power save disabled"@)
                    },
                ]
            } else {
                Seq::empty()
            },
            None => seq![
                FindingView {
                    current_value: "unknown"@,
                    recommended_value: "on"@,
                    impact: "~0.5W if disabled"@,
                    path: None,
                    weight: 1,
                    ..new_finding(
                        Severity::Info,
                        "Network"@,
                        "Could not check WiFi power save (iw not available)"@,
                    )
                },
            ],
        },
        None => Seq::empty(),
    }
}

/// Audits the WiFi power-save state reported by `iw`.
pub fn check(hw: &HardwareInfo, iw_output: Option<String>) -> (r: Vec<Finding>)
    ensures
        crate::audit::findings_view(r@) == network_findings(
            *hw,
            crate::detect::dmi::opt_view(iw_output),
        ),
{
    let mut findings: Vec<Finding> = Vec::new();
    let ghost target = network_findings(*hw, crate::detect::dmi::opt_view(iw_output));
    assert(crate::audit::findings_view(findings@) =~= Seq::<FindingView>::empty());
    match &hw.network.wifi_interface {
        Some(iface) => {
            match &iw_output {
                Some(out) => {
                    if text::contains_sub(out.as_str(), "off") {
                        let cmd = text::concat3("iw dev ", iface.as_str(), " set power_save on");
                        findings.push(
                            Finding::new(
                                Severity::Medium,
                                "Network",
                                "WiFi power save disabled".to_owned(),
                            ).current("off".to_owned()).recommended("on".to_owned()).impact(
                                "~0.5W savings".to_owned(),
                            ).path(cmd).weight(5),
                        );
                    }
                },
                None => {
                    findings.push(
                        Finding::new(
                            Severity::Info,
                            "Network",
                            "Could not check WiFi power save (iw not available)".to_owned(),
                        ).current("unknown".to_owned()).recommended("on".to_owned()).impact(
                            "~0.5W if disabled".to_owned(),
                        ).weight(1),
                    );
                },
            }
        },
        None => {},
    }
    proof {
        assert(crate::audit::findings_view(findings@) =~= target);
    }
    findings
}

} // verus!
