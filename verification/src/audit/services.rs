//! Service audit rules: conflicting power managers and notable daemons.
//!
//! Whether a unit is active or enabled is `systemctl`'s answer; the shell
//! collects one [`ServiceState`] per interesting unit and hands the list
//! in.

use vstd::prelude::*;
use crate::audit::{new_finding, Finding, FindingView, Severity};
use crate::text;

verus! {

/// One systemd unit's observed state.
#[derive(Debug, Clone)]
pub struct ServiceState {
    pub name: String,
    pub active: bool,
    pub enabled: bool,
}

/// View of a [`ServiceState`].
pub struct ServiceStateView {
    pub name: Seq<char>,
    pub active: bool,
    pub enabled: bool,
}

impl View for ServiceState {
    type V = ServiceStateView;

    open spec fn view(&self) -> ServiceStateView {
        ServiceStateView { name: self.name@, active: self.active, enabled: self.enabled }
    }
}

/// Views of a vector of service states.
pub open spec fn states_view(v: Seq<ServiceState>) -> Seq<ServiceStateView> {
    v.map_values(|s: ServiceState| s@)
}

/// Whether the unit conflicts with direct power management.
pub open spec fn is_conflicting(name: Seq<char>) -> bool {
    name == "tlp.service"@ || name == "power-profiles-daemon.service"@ || name
        == "thermald.service"@
}

/// Whether the unit is merely worth noting.
pub open spec fn is_notable(name: Seq<char>) -> bool {
    name == "docker.service"@ || name == "containerd.service"@
}

/// The findings one observed service earns.
pub open spec fn service_findings_of(s: ServiceStateView) -> Seq<FindingView> {
    if is_conflicting(s.name) {
        if s.active {
            seq![
                FindingView {
                    current_value: "active (running)"@,
                    recommended_value: "disable and stop"@,
                    impact: "Actively harmful to power optimization"@,
                    path: None,
                    weight: 8,
                    ..new_finding(Severity::High, "Services"@, s.name + " is active"@)
                },
            ]
        } else if s.enabled {
            seq![
                FindingView {
                    current_value: "enabled (not running)"@,
                    recommended_value: "disable"@,
                    impact: "Will interfere on next boot"@,
                    path: None,
                    weight: 5,
                    ..new_finding(Severity::Medium, "Services"@, s.name + " is enabled"@)
                },
            ]
        } else {
            Seq::empty()
        }
    } else if is_notable(s.name) && s.active {
        seq![
            FindingView {
                current_value: "active"@,
                recommended_value: "no change recommended"@,
                impact: "Minor power impact"@,
                path: None,
                weight: 0,
                ..new_finding(Severity::Info, "Services"@, s.name + " is running"@)
            },
        ]
    } else {
        Seq::empty()
    }
}

/// Left fold of [`service_findings_of`] over the observed states.
pub open spec fn service_findings_from(
    states: Seq<ServiceStateView>,
    i: int,
    acc: Seq<FindingView>,
) -> Seq<FindingView>
    decreases states.len() - i,
{
    if i < 0 || i >= states.len() {
        acc
    } else {
        service_findings_from(states, i + 1, acc + service_findings_of(states[i]))
    }
}

/// Audits the observed services.
pub fn check(states: &Vec<ServiceState>) -> (r: Vec<Finding>)
    ensures
        crate::audit::findings_view(r@) == service_findings_from(
            states_view(states@),
            0,
            Seq::empty(),
        ),
{
    let ghost sv = states_view(states@);
    let mut findings: Vec<Finding> = Vec::new();
    assert(crate::audit::findings_view(findings@) =~= Seq::<FindingView>::empty());
    let mut i: usize = 0;
    while i < states.len()
        invariant
            i <= states@.len(),
            sv == states_view(states@),
            service_findings_from(sv, 0, Seq::empty()) == service_findings_from(
                sv,
                i as int,
                crate::audit::findings_view(findings@),
            ),
        decreases states@.len() - i,
    {
        let s = &states[i];
        let conflicting = text::str_eq(s.name.as_str(), "tlp.service") || text::str_eq(
            s.name.as_str(),
            "power-profiles-daemon.service",
        ) || text::str_eq(s.name.as_str(), "thermald.service");
        let notable = text::str_eq(s.name.as_str(), "docker.service") || text::str_eq(
            s.name.as_str(),
            "containerd.service",
        );
        let ghost before = crate::audit::findings_view(findings@);
        if conflicting {
            if s.active {
                findings.push(
                    Finding::new(
                        Severity::High,
                        "Services",
                        text::concat(s.name.as_str(), " is active"),
                    ).current("active (running)".to_owned()).recommended(
                        "disable and stop".to_owned(),
                    ).impact("Actively harmful to power optimization".to_owned()).weight(8),
                );
                assert(crate::audit::findings_view(findings@) =~= before + service_findings_of(
                    sv[i as int],
                ));
            } else if s.enabled {
                findings.push(
                    Finding::new(
                        Severity::Medium,
                        "Services",
                        text::concat(s.name.as_str(), " is enabled"),
                    ).current("enabled (not running)".to_owned()).recommended(
                        "disable".to_owned(),
                    ).impact("Will interfere on next boot".to_owned()).weight(5),
                );
                assert(crate::audit::findings_view(findings@) =~= before + service_findings_of(
                    sv[i as int],
                ));
            } else {
                assert(crate::audit::findings_view(findings@) =~= before + service_findings_of(
                    sv[i as int],
                ));
            }
        } else if notable && s.active {
            findings.push(
                Finding::new(
                    Severity::Info,
                    "Services",
                    text::concat(s.name.as_str(), " is running"),
                ).current("active".to_owned()).recommended(
                    "no change recommended".to_owned(),
                ).impact("Minor power impact".to_owned()).weight(0),
            );
            assert(crate::audit::findings_view(findings@) =~= before + service_findings_of(
                sv[i as int],
            ));
        } else {
            assert(crate::audit::findings_view(findings@) =~= before + service_findings_of(
                sv[i as int],
            ));
        }
        i = i + 1;
    }
    findings
}

} // verus!
