//! The drift checker: compares a journal against live state and reports
//! whether each recorded change is still in force.

use vstd::prelude::*;
use crate::audit::services::{states_view, ServiceState};
use crate::detect::dmi::opt_view;
use crate::fs::SysfsRoot;
use crate::journal::{changes_view, ApplyState, SysfsChangeView};
use crate::text;

verus! {

/// Status of one recorded sysfs value.
#[derive(Debug, Clone)]
pub struct SysfsStatus {
    pub path: String,
    pub expected: String,
    pub actual: Option<String>,
    pub active: bool,
}

/// Status of one toggled wake source: active means still disabled.
#[derive(Debug, Clone)]
pub struct WakeupStatus {
    pub device: String,
    pub active: bool,
}

/// Status of one added kernel parameter.
#[derive(Debug, Clone)]
pub struct KernelParamStatus {
    pub param: String,
    pub in_cmdline: bool,
}

/// Status of one disabled service.
#[derive(Debug, Clone)]
pub struct ServiceStatus {
    pub name: String,
    pub still_stopped: bool,
}

/// Status of the generated persistence unit.
#[derive(Debug, Clone)]
pub struct UnitStatus {
    pub path: String,
    pub exists: bool,
}

/// The full drift report.
#[derive(Debug, Clone)]
pub struct StatusReport {
    pub timestamp: String,
    pub sysfs: Vec<SysfsStatus>,
    pub acpi_wakeup: Vec<WakeupStatus>,
    pub kernel_params: Vec<KernelParamStatus>,
    pub services: Vec<ServiceStatus>,
    pub systemd_unit: Option<UnitStatus>,
}

/// The active bits of the report, category by category.
pub open spec fn report_flags(r: StatusReport) -> Seq<bool> {
    r.sysfs@.map_values(|s: SysfsStatus| s.active) + r.acpi_wakeup@.map_values(
        |w: WakeupStatus| w.active,
    ) + r.kernel_params@.map_values(|k: KernelParamStatus| k.in_cmdline)
        + r.services@.map_values(|s: ServiceStatus| s.still_stopped) + (match r.systemd_unit {
        Some(u) => seq![u.exists],
        None => Seq::<bool>::empty(),
    })
}

/// How many of the flags are set.
pub open spec fn count_true_from(flags: Seq<bool>, i: int, acc: int) -> int
    decreases flags.len() - i,
{
    if i < 0 || i >= flags.len() {
        acc
    } else if flags[i] {
        count_true_from(flags, i + 1, acc + 1)
    } else {
        count_true_from(flags, i + 1, acc)
    }
}

/// The count fold stays between its accumulator and the remaining length.
pub proof fn lemma_count_true_bounds(flags: Seq<bool>, i: int, acc: int)
    requires
        0 <= i <= flags.len(),
    ensures
        acc <= count_true_from(flags, i, acc) <= acc + flags.len() - i,
    decreases flags.len() - i,
{
    if i < flags.len() {
        if flags[i] {
            lemma_count_true_bounds(flags, i + 1, acc + 1);
        } else {
            lemma_count_true_bounds(flags, i + 1, acc);
        }
    }
}

/// Where each category's flag lands inside [`report_flags`].
proof fn lemma_flag_at(r: &StatusReport, j: int)
    requires
        0 <= j < report_flags(*r).len(),
    ensures
        report_flags(*r).len() == r.sysfs@.len() + r.acpi_wakeup@.len() + r.kernel_params@.len()
            + r.services@.len() + (match r.systemd_unit {
            Some(_) => 1int,
            None => 0int,
        }),
        j < r.sysfs@.len() ==> report_flags(*r)[j] == r.sysfs@[j].active,
        r.sysfs@.len() <= j < r.sysfs@.len() + r.acpi_wakeup@.len() ==> report_flags(*r)[j]
            == r.acpi_wakeup@[j - r.sysfs@.len()].active,
        r.sysfs@.len() + r.acpi_wakeup@.len() <= j < r.sysfs@.len() + r.acpi_wakeup@.len()
            + r.kernel_params@.len() ==> report_flags(*r)[j] == r.kernel_params@[j
            - r.sysfs@.len() - r.acpi_wakeup@.len()].in_cmdline,
        r.sysfs@.len() + r.acpi_wakeup@.len() + r.kernel_params@.len() <= j < r.sysfs@.len()
            + r.acpi_wakeup@.len() + r.kernel_params@.len() + r.services@.len()
            ==> report_flags(*r)[j] == r.services@[j - r.sysfs@.len() - r.acpi_wakeup@.len()
            - r.kernel_params@.len()].still_stopped,
        j >= r.sysfs@.len() + r.acpi_wakeup@.len() + r.kernel_params@.len() + r.services@.len()
            ==> r.systemd_unit is Some && report_flags(*r)[j] == r.systemd_unit->0.exists,
{
    let a = r.sysfs@.map_values(|s: SysfsStatus| s.active);
    let b = r.acpi_wakeup@.map_values(|w: WakeupStatus| w.active);
    let c = r.kernel_params@.map_values(|k: KernelParamStatus| k.in_cmdline);
    let d = r.services@.map_values(|s: ServiceStatus| s.still_stopped);
    let e = match r.systemd_unit {
        Some(u) => seq![u.exists],
        None => Seq::<bool>::empty(),
    };
    assert(report_flags(*r) == a + b + c + d + e);
    if j < a.len() {
        assert((a + b + c + d + e)[j] == (a + b + c + d)[j]);
        assert((a + b + c + d)[j] == (a + b + c)[j]);
        assert((a + b + c)[j] == (a + b)[j]);
        assert((a + b)[j] == a[j]);
    } else if j < a.len() + b.len() {
        assert((a + b + c + d + e)[j] == (a + b + c + d)[j]);
        assert((a + b + c + d)[j] == (a + b + c)[j]);
        assert((a + b + c)[j] == (a + b)[j]);
        assert((a + b)[j] == b[j - a.len()]);
    } else if j < a.len() + b.len() + c.len() {
        assert((a + b + c + d + e)[j] == (a + b + c + d)[j]);
        assert((a + b + c + d)[j] == (a + b + c)[j]);
        assert((a + b + c)[j] == c[j - a.len() - b.len()]);
    } else if j < a.len() + b.len() + c.len() + d.len() {
        assert((a + b + c + d + e)[j] == (a + b + c + d)[j]);
        assert((a + b + c + d)[j] == d[j - a.len() - b.len() - c.len()]);
    } else {
        assert((a + b + c + d + e)[j] == e[j - a.len() - b.len() - c.len() - d.len()]);
    }
}

impl StatusReport {
    /// How many tracked optimizations the report covers.
    pub fn total_count(&self) -> (r: usize)
        requires
            report_flags(*self).len() <= usize::MAX,
        ensures
            r == report_flags(*self).len(),
    {
        let unit: usize = match &self.systemd_unit {
            Some(_) => 1,
            None => 0,
        };
        proof {
            assert(report_flags(*self).len() == self.sysfs@.len() + self.acpi_wakeup@.len()
                + self.kernel_params@.len() + self.services@.len() + (
            match self.systemd_unit {
                Some(_) => 1int,
                None => 0int,
            }));
        }
        self.sysfs.len() + self.acpi_wakeup.len() + self.kernel_params.len()
            + self.services.len() + unit
    }

    /// How many tracked optimizations are verified active.
    pub fn active_count(&self) -> (r: usize)
        requires
            report_flags(*self).len() <= usize::MAX,
        ensures
            r == count_true_from(report_flags(*self), 0, 0),
            r <= report_flags(*self).len(),
    {
        let ghost flags = report_flags(*self);
        proof {
            lemma_count_true_bounds(flags, 0, 0);
        }
        let mut cnt: usize = 0;
        let mut i: usize = 0;
        while i < self.sysfs.len()
            invariant
                i <= self.sysfs@.len(),
                cnt <= i,
                flags == report_flags(*self),
                flags.len() <= usize::MAX,
                flags.len() == self.sysfs@.len() + self.acpi_wakeup@.len()
                    + self.kernel_params@.len() + self.services@.len() + (
                match self.systemd_unit {
                    Some(_) => 1int,
                    None => 0int,
                }),
                count_true_from(flags, 0, 0) == count_true_from(flags, i as int, cnt as int),
            decreases self.sysfs@.len() - i,
        {
            proof {
                lemma_flag_at(self, i as int);
            }
            if self.sysfs[i].active {
                cnt = cnt + 1;
            }
            i = i + 1;
        }
        let base1 = self.sysfs.len();
        let mut i: usize = 0;
        while i < self.acpi_wakeup.len()
            invariant
                i <= self.acpi_wakeup@.len(),
                cnt <= base1 + i,
                base1 == self.sysfs@.len(),
                flags == report_flags(*self),
                flags.len() <= usize::MAX,
                flags.len() == self.sysfs@.len() + self.acpi_wakeup@.len()
                    + self.kernel_params@.len() + self.services@.len() + (
                match self.systemd_unit {
                    Some(_) => 1int,
                    None => 0int,
                }),
                count_true_from(flags, 0, 0) == count_true_from(
                    flags,
                    base1 + i,
                    cnt as int,
                ),
            decreases self.acpi_wakeup@.len() - i,
        {
            proof {
                lemma_flag_at(self, base1 + i as int);
            }
            if self.acpi_wakeup[i].active {
                cnt = cnt + 1;
            }
            i = i + 1;
        }
        let base2 = base1 + self.acpi_wakeup.len();
        let mut i: usize = 0;
        while i < self.kernel_params.len()
            invariant
                i <= self.kernel_params@.len(),
                cnt <= base2 + i,
                base2 == self.sysfs@.len() + self.acpi_wakeup@.len(),
                flags == report_flags(*self),
                flags.len() <= usize::MAX,
                flags.len() == self.sysfs@.len() + self.acpi_wakeup@.len()
                    + self.kernel_params@.len() + self.services@.len() + (
                match self.systemd_unit {
                    Some(_) => 1int,
                    None => 0int,
                }),
                count_true_from(flags, 0, 0) == count_true_from(
                    flags,
                    base2 + i,
                    cnt as int,
                ),
            decreases self.kernel_params@.len() - i,
        {
            proof {
                lemma_flag_at(self, base2 + i as int);
            }
            if self.kernel_params[i].in_cmdline {
                cnt = cnt + 1;
            }
            i = i + 1;
        }
        let base3 = base2 + self.kernel_params.len();
        let mut i: usize = 0;
        while i < self.services.len()
            invariant
                i <= self.services@.len(),
                cnt <= base3 + i,
                base3 == self.sysfs@.len() + self.acpi_wakeup@.len()
                    + self.kernel_params@.len(),
                flags == report_flags(*self),
                flags.len() <= usize::MAX,
                flags.len() == self.sysfs@.len() + self.acpi_wakeup@.len()
                    + self.kernel_params@.len() + self.services@.len() + (
                match self.systemd_unit {
                    Some(_) => 1int,
                    None => 0int,
                }),
                count_true_from(flags, 0, 0) == count_true_from(
                    flags,
                    base3 + i,
                    cnt as int,
                ),
            decreases self.services@.len() - i,
        {
            proof {
                lemma_flag_at(self, base3 + i as int);
            }
            if self.services[i].still_stopped {
                cnt = cnt + 1;
            }
            i = i + 1;
        }
        match &self.systemd_unit {
            Some(u) => {
                proof {
                    lemma_flag_at(self, flags.len() - 1);
                    assert(flags[flags.len() - 1] == u.exists);
                }
                if u.exists {
                    cnt = cnt + 1;
                }
                proof {
                    assert(count_true_from(flags, flags.len() as int, cnt as int) == cnt);
                }
            },
            None => {
                proof {
                    assert(count_true_from(flags, flags.len() as int, cnt as int) == cnt);
                }
            },
        }
        cnt
    }

    /// How many tracked optimizations have drifted away.
    pub fn drifted_count(&self) -> (r: usize)
        requires
            report_flags(*self).len() <= usize::MAX,
        ensures
            r == report_flags(*self).len() - count_true_from(report_flags(*self), 0, 0),
    {
        proof {
            lemma_count_true_bounds(report_flags(*self), 0, 0);
        }
        self.total_count() - self.active_count()
    }
}

/// The status one recorded sysfs change earns against the live tree:
/// active exactly when the live trimmed value equals the recorded new
/// value, trimmed.
pub open spec fn spec_sysfs_status(fsv: SysfsRoot, c: SysfsChangeView) -> (Seq<char>, Option<
    Seq<char>,
>, bool) {
    let actual = if fsv.is_read_protected(c.path) {
        None
    } else {
        fsv.lookup(c.path)
    };
    let actual_trimmed = match actual {
        Some(v) => Some(text::trim_seq(v)),
        None => None,
    };
    let expected = text::trim_seq(c.new_value);
    (expected, actual_trimmed, actual_trimmed == Some(expected))
}

/// Checks every recorded sysfs change against the live tree.
pub fn check_sysfs(state: &ApplyState, fs: &SysfsRoot) -> (r: Vec<SysfsStatus>)
    ensures
        r@.len() == state.sysfs_changes@.len(),
        forall|i: int|
            0 <= i < r@.len() ==> {
                let c = changes_view(state.sysfs_changes@)[i];
                let st = spec_sysfs_status(*fs, c);
                &&& (#[trigger] r@[i]).path@ == c.path
                &&& r@[i].expected@ == st.0
                &&& opt_view(r@[i].actual) == st.1
                &&& r@[i].active == st.2
            },
{
    let mut out: Vec<SysfsStatus> = Vec::new();
    let mut i: usize = 0;
    while i < state.sysfs_changes.len()
        invariant
            i <= state.sysfs_changes@.len(),
            out@.len() == i,
            forall|j: int|
                0 <= j < i ==> {
                    let c = changes_view(state.sysfs_changes@)[j];
                    let st = spec_sysfs_status(*fs, c);
                    &&& (#[trigger] out@[j]).path@ == c.path
                    &&& out@[j].expected@ == st.0
                    &&& opt_view(out@[j].actual) == st.1
                    &&& out@[j].active == st.2
                },
        decreases state.sysfs_changes@.len() - i,
    {
        let change = &state.sysfs_changes[i];
        let actual = fs.read_full_optional(change.path.as_str());
        let expected = text::trim(change.new_value.as_str());
        let active = match &actual {
            Some(a) => text::str_eq(a.as_str(), expected.as_str()),
            None => false,
        };
        out.push(
            SysfsStatus { path: change.path.clone(), expected, actual, active },
        );
        i = i + 1;
    }
    out
}

/// Whether some wakeup line names the device first and carries the
/// `*disabled` token.
pub open spec fn device_disabled_from(lines: Seq<Seq<char>>, device: Seq<char>, i: int) -> bool
    decreases lines.len() - i,
{
    if i < 0 || i >= lines.len() {
        false
    } else {
        let parts = text::split_ws(lines[i]);
        if parts.len() > 0 && parts[0] == device && parts.contains("*disabled"@) {
            true
        } else {
            device_disabled_from(lines, device, i + 1)
        }
    }
}

/// Whether the wakeup content reports the device as disabled.
fn device_disabled(content_lines: &Vec<String>, device: &str) -> (r: bool)
    ensures
        r == device_disabled_from(text::views_of(content_lines@), device@, 0),
{
    let ghost lv = text::views_of(content_lines@);
    let mut i: usize = 0;
    while i < content_lines.len()
        invariant
            i <= content_lines@.len(),
            lv == text::views_of(content_lines@),
            device_disabled_from(lv, device@, 0) == device_disabled_from(lv, device@, i as int),
        decreases content_lines@.len() - i,
    {
        let parts = text::split_whitespace(content_lines[i].as_str());
        if parts.len() > 0 && text::str_eq(parts[0].as_str(), device) && text::contains_string(
            &parts,
            "*disabled",
        ) {
            return true;
        }
        i = i + 1;
    }
    false
}

/// Checks every toggled wake source against the wakeup file's content.
pub fn check_acpi_wakeup(state: &ApplyState, acpi_wakeup_content: &str) -> (r: Vec<WakeupStatus>)
    ensures
        r@.len() == state.acpi_wakeup_toggled@.len(),
        forall|i: int|
            0 <= i < r@.len() ==> {
                &&& (#[trigger] r@[i]).device@ == state.acpi_wakeup_toggled@[i]@
                &&& r@[i].active == device_disabled_from(
                    text::split_lines_seq(acpi_wakeup_content@),
                    state.acpi_wakeup_toggled@[i]@,
                    0,
                )
            },
{
    let lines = text::split_lines(acpi_wakeup_content);
    let ghost lv = text::split_lines_seq(acpi_wakeup_content@);
    let mut out: Vec<WakeupStatus> = Vec::new();
    let mut i: usize = 0;
    while i < state.acpi_wakeup_toggled.len()
        invariant
            i <= state.acpi_wakeup_toggled@.len(),
            lv == text::views_of(lines@),
            lv == text::split_lines_seq(acpi_wakeup_content@),
            out@.len() == i,
            forall|j: int|
                0 <= j < i ==> {
                    &&& (#[trigger] out@[j]).device@ == state.acpi_wakeup_toggled@[j]@
                    &&& out@[j].active == device_disabled_from(
                        lv,
                        state.acpi_wakeup_toggled@[j]@,
                        0,
                    )
                },
        decreases state.acpi_wakeup_toggled@.len() - i,
    {
        let device = &state.acpi_wakeup_toggled[i];
        let active = device_disabled(&lines, device.as_str());
        out.push(WakeupStatus { device: device.clone(), active });
        i = i + 1;
    }
    out
}

/// Checks every added kernel parameter against the live command line:
/// in force exactly when it appears verbatim among the tokens; absent
/// means a reboot is still pending.
pub fn check_kernel_params(state: &ApplyState, cmdline: &str) -> (r: Vec<KernelParamStatus>)
    ensures
        r@.len() == state.kernel_params_added@.len(),
        forall|i: int|
            0 <= i < r@.len() ==> {
                &&& (#[trigger] r@[i]).param@ == state.kernel_params_added@[i]@
                &&& r@[i].in_cmdline == text::split_ws(cmdline@).contains(
                    state.kernel_params_added@[i]@,
                )
            },
{
    let toks = text::split_whitespace(cmdline);
    let ghost tv = text::split_ws(cmdline@);
    let mut out: Vec<KernelParamStatus> = Vec::new();
    let mut i: usize = 0;
    while i < state.kernel_params_added.len()
        invariant
            i <= state.kernel_params_added@.len(),
            tv == text::views_of(toks@),
            tv == text::split_ws(cmdline@),
            out@.len() == i,
            forall|j: int|
                0 <= j < i ==> {
                    &&& (#[trigger] out@[j]).param@ == state.kernel_params_added@[j]@
                    &&& out@[j].in_cmdline == tv.contains(state.kernel_params_added@[j]@)
                },
        decreases state.kernel_params_added@.len() - i,
    {
        let param = &state.kernel_params_added[i];
        let in_cmdline = text::contains_string(&toks, param.as_str());
        out.push(KernelParamStatus { param: param.clone(), in_cmdline });
        i = i + 1;
    }
    out
}

/// The probed state of the named unit, when the probes hold one.
pub open spec fn probe_of(
    probes: Seq<crate::audit::services::ServiceStateView>,
    name: Seq<char>,
    i: int,
) -> Option<crate::audit::services::ServiceStateView>
    decreases probes.len() - i,
{
    if i < 0 || i >= probes.len() {
        None
    } else if probes[i].name == name {
        Some(probes[i])
    } else {
        probe_of(probes, name, i + 1)
    }
}

/// Checks every disabled service against its probed state: still stopped
/// unless the probe reports it active or enabled again.
pub fn check_services(state: &ApplyState, probes: &Vec<ServiceState>) -> (r: Vec<ServiceStatus>)
    ensures
        r@.len() == state.services_disabled@.len(),
        forall|i: int|
            0 <= i < r@.len() ==> {
                &&& (#[trigger] r@[i]).name@ == state.services_disabled@[i]@
                &&& r@[i].still_stopped == (match probe_of(
                    states_view(probes@),
                    state.services_disabled@[i]@,
                    0,
                ) {
                    Some(p) => !p.active && !p.enabled,
                    None => true,
                })
            },
{
    let ghost pv = states_view(probes@);
    let mut out: Vec<ServiceStatus> = Vec::new();
    let mut i: usize = 0;
    while i < state.services_disabled.len()
        invariant
            i <= state.services_disabled@.len(),
            pv == states_view(probes@),
            out@.len() == i,
            forall|j: int|
                0 <= j < i ==> {
                    &&& (#[trigger] out@[j]).name@ == state.services_disabled@[j]@
                    &&& out@[j].still_stopped == (match probe_of(
                        pv,
                        state.services_disabled@[j]@,
                        0,
                    ) {
                        Some(p) => !p.active && !p.enabled,
                        None => true,
                    })
                },
        decreases state.services_disabled@.len() - i,
    {
        let name = &state.services_disabled[i];
        let mut still_stopped: bool = true;
        let mut k: usize = 0;
        while k < probes.len()
            invariant_except_break
                still_stopped,
            invariant
                k <= probes@.len(),
                pv == states_view(probes@),
                probe_of(pv, name@, 0) == probe_of(pv, name@, k as int),
            ensures
                pv == states_view(probes@),
                still_stopped == (match probe_of(pv, name@, 0) {
                    Some(p) => !p.active && !p.enabled,
                    None => true,
                }),
            decreases probes@.len() - k,
        {
            if text::str_eq(probes[k].name.as_str(), name.as_str()) {
                assert(probe_of(pv, name@, k as int) == Some(pv[k as int]));
                still_stopped = !probes[k].active && !probes[k].enabled;
                break;
            }
            k = k + 1;
        }
        out.push(ServiceStatus { name: name.clone(), still_stopped });
        i = i + 1;
    }
    out
}

/// Checks whether the first generated unit still exists on disk.
pub fn check_systemd_units(state: &ApplyState, fs: &SysfsRoot) -> (r: Option<UnitStatus>)
    ensures
        state.systemd_units_created@.len() == 0 <==> r is None,
        r is Some ==> r->0.path@ == state.systemd_units_created@[0]@ && r->0.exists
            == fs.present(state.systemd_units_created@[0]@),
{
    if state.systemd_units_created.len() == 0 {
        return None;
    }
    let path = &state.systemd_units_created[0];
    let exists_now = fs.present_at(path.as_str());
    Some(UnitStatus { path: path.clone(), exists: exists_now })
}

/// Assembles the full drift report from the journal, the live wakeup and
/// command-line contents, and the probed service states.
pub fn check(
    state: &ApplyState,
    fs: &SysfsRoot,
    acpi_wakeup_content: &str,
    cmdline: &str,
    probes: &Vec<ServiceState>,
) -> (r: StatusReport)
    ensures
        r.timestamp@ == state.timestamp@,
        r.sysfs@.len() == state.sysfs_changes@.len(),
        forall|i: int|
            0 <= i < r.sysfs@.len() ==> {
                let c = changes_view(state.sysfs_changes@)[i];
                let st = spec_sysfs_status(*fs, c);
                &&& (#[trigger] r.sysfs@[i]).path@ == c.path
                &&& r.sysfs@[i].expected@ == st.0
                &&& opt_view(r.sysfs@[i].actual) == st.1
                &&& r.sysfs@[i].active == st.2
            },
        r.acpi_wakeup@.len() == state.acpi_wakeup_toggled@.len(),
        forall|i: int|
            0 <= i < r.acpi_wakeup@.len() ==> {
                &&& (#[trigger] r.acpi_wakeup@[i]).device@ == state.acpi_wakeup_toggled@[i]@
                &&& r.acpi_wakeup@[i].active == device_disabled_from(
                    text::split_lines_seq(acpi_wakeup_content@),
                    state.acpi_wakeup_toggled@[i]@,
                    0,
                )
            },
        r.kernel_params@.len() == state.kernel_params_added@.len(),
        forall|i: int|
            0 <= i < r.kernel_params@.len() ==> {
                &&& (#[trigger] r.kernel_params@[i]).param@ == state.kernel_params_added@[i]@
                &&& r.kernel_params@[i].in_cmdline == text::split_ws(cmdline@).contains(
                    state.kernel_params_added@[i]@,
                )
            },
        r.services@.len() == state.services_disabled@.len(),
        forall|i: int|
            0 <= i < r.services@.len() ==> {
                &&& (#[trigger] r.services@[i]).name@ == state.services_disabled@[i]@
                &&& r.services@[i].still_stopped == (match probe_of(
                    states_view(probes@),
                    state.services_disabled@[i]@,
                    0,
                ) {
                    Some(p) => !p.active && !p.enabled,
                    None => true,
                })
            },
        r.systemd_unit is Some <==> state.systemd_units_created@.len() > 0,
        r.systemd_unit is Some ==> r.systemd_unit->0.path@ == state.systemd_units_created@[0]@
            && r.systemd_unit->0.exists == fs.present(state.systemd_units_created@[0]@),
{
    StatusReport {
        timestamp: state.timestamp.clone(),
        sysfs: check_sysfs(state, fs),
        acpi_wakeup: check_acpi_wakeup(state, acpi_wakeup_content),
        kernel_params: check_kernel_params(state, cmdline),
        services: check_services(state, probes),
        systemd_unit: check_systemd_units(state, fs),
    }
}

} // verus!
