//! Plan building and the transactional apply engine.
//!
//! The engine drives an [`ApplyOps`] capability surface: the thin shell
//! implements it against the live system, tests inject fakes with
//! injected faults. The journal the engine builds and checkpoints is what
//! revert later drains.

use vstd::prelude::*;
use crate::audit::services::ServiceState;
use crate::detect::platform::{sources_view, WakeupSourceView};
use crate::detect::pci::{devices_view, PciDevice, PciDeviceView};
use crate::detect::HardwareInfo;
use crate::error::Error;
use crate::fs::SysfsRoot;
use crate::journal::{
    backups_view, changes_view, merge_backups, merge_kernel_param_state, ApplyState,
    KernelParamBackup, SysfsChange,
};
use crate::text;

verus! {

/// One planned runtime sysfs write.
#[derive(Debug, Clone)]
pub struct PlannedSysfsWrite {
    pub path: String,
    pub value: String,
    pub description: String,
}

/// View of a [`PlannedSysfsWrite`].
pub struct PlannedWriteView {
    pub path: Seq<char>,
    pub value: Seq<char>,
    pub description: Seq<char>,
}

impl View for PlannedSysfsWrite {
    type V = PlannedWriteView;

    open spec fn view(&self) -> PlannedWriteView {
        PlannedWriteView {
            path: self.path@,
            value: self.value@,
            description: self.description@,
        }
    }
}

/// Views of a vector of planned writes.
pub open spec fn writes_view(v: Seq<PlannedSysfsWrite>) -> Seq<PlannedWriteView> {
    v.map_values(|w: PlannedSysfsWrite| w@)
}

/// A modprobe configuration file to generate.
#[derive(Debug, Clone)]
pub struct ModprobeConfig {
    pub filename: String,
    pub content: String,
}

/// The ordered plan of changes an apply run executes.
#[derive(Debug, Clone)]
pub struct ApplyPlan {
    pub sysfs_writes: Vec<PlannedSysfsWrite>,
    pub kernel_params: Vec<String>,
    pub services_to_disable: Vec<String>,
    pub acpi_wakeup_disable: Vec<String>,
    pub systemd_service: bool,
    pub modprobe_configs: Vec<ModprobeConfig>,
}

/// Whether a PCI device is a USB host controller, by class code or
/// driver name.
pub open spec fn spec_is_usb_pci(d: PciDeviceView) -> bool {
    ||| (match d.class {
        Some(c) => {
            let lc = strip_0x(c);
            let pfx = if lc.len() >= 6 {
                lc.subrange(0, 6)
            } else {
                lc
            };
            ||| pfx == "0c0300"@
            ||| pfx == "0c0310"@
            ||| pfx == "0c0320"@
            ||| pfx == "0c0330"@
        },
        None => false,
    })
    ||| (match d.driver {
        Some(drv) => {
            ||| text::contains_seq(drv, "xhci"@)
            ||| text::contains_seq(drv, "ehci"@)
            ||| text::contains_seq(drv, "ohci"@)
            ||| text::contains_seq(drv, "uhci"@)
        },
        None => false,
    })
}

/// The class string without a leading `0x`.
pub open spec fn strip_0x(c: Seq<char>) -> Seq<char> {
    if text::has_prefix(c, "0x"@) {
        c.subrange(2, c.len() as int)
    } else {
        c
    }
}

/// Whether a PCI device is a USB host controller. Class codes compare in
/// lower case, as PCI sysfs emits them.
pub fn is_usb_pci_device(device: &PciDevice) -> (r: bool)
    ensures
        r == spec_is_usb_pci(device@),
{
    let by_class: bool = match &device.class {
        Some(class) => {
            let stripped: String = if text::starts_with(class.as_str(), "0x") {
                let n = class.as_str().unicode_len();
                let plen = "0x".unicode_len();
                proof {
                    reveal_strlit("0x");
                    assert("0x"@.len() == 2);
                }
                text::substring_of(class.as_str(), plen, n)
            } else {
                class.clone()
            };
            let n = stripped.as_str().unicode_len();
            let pfx: String = if n >= 6 {
                text::substring_of(stripped.as_str(), 0, 6)
            } else {
                stripped
            };
            text::str_eq(pfx.as_str(), "0c0300") || text::str_eq(pfx.as_str(), "0c0310")
                || text::str_eq(pfx.as_str(), "0c0320") || text::str_eq(pfx.as_str(), "0c0330")
        },
        None => false,
    };
    if by_class {
        return true;
    }
    match &device.driver {
        Some(driver) => {
            text::contains_sub(driver.as_str(), "xhci") || text::contains_sub(
                driver.as_str(),
                "ehci",
            ) || text::contains_sub(driver.as_str(), "ohci") || text::contains_sub(
                driver.as_str(),
                "uhci",
            )
        },
        None => false,
    }
}

/// The PCI device at the given address, if the view holds one.
pub open spec fn pci_at(devs: Seq<PciDeviceView>, addr: Seq<char>, i: int) -> Option<
    PciDeviceView,
>
    decreases devs.len() - i,
{
    if i < 0 || i >= devs.len() {
        None
    } else if devs[i].address == addr {
        Some(devs[i])
    } else {
        pci_at(devs, addr, i + 1)
    }
}

/// Whether the plan disables this wake source: it is enabled, it is not
/// the essential `XHC0`, it sits on PCI, and it is either an `XHC*`
/// controller or its PCI device is a USB host controller. The second arm
/// is a deliberate refinement: a source named outside the `XHC` family
/// whose PCI device is a USB host controller is still disabled — the
/// controller class decides, not the name.
pub open spec fn spec_should_disable_source(s: WakeupSourceView, hw: HardwareInfo) -> bool {
    &&& s.enabled
    &&& s.device != "XHC0"@
    &&& match s.sysfs_node {
        Some(n) => text::has_prefix(n, "pci:"@) && (text::has_prefix(s.device, "XHC"@) || (
        match pci_at(
            devices_view(hw.pci.devices@),
            n.subrange("pci:"@.len() as int, n.len() as int),
            0,
        ) {
            Some(d) => spec_is_usb_pci(d),
            None => false,
        })),
        None => false,
    }
}

/// Decides whether the plan disables a wake source.
pub fn should_disable_acpi_wakeup_source(
    source: &crate::detect::platform::AcpiWakeupSource,
    hw: &HardwareInfo,
) -> (r: bool)
    ensures
        r == spec_should_disable_source(source@, *hw),
{
    if !source.enabled || text::str_eq(source.device.as_str(), "XHC0") {
        return false;
    }
    let addr: String = match &source.sysfs_node {
        Some(node) => {
            if text::starts_with(node.as_str(), "pci:") {
                let plen = "pci:".unicode_len();
                let n = node.as_str().unicode_len();
                text::substring_of(node.as_str(), plen, n)
            } else {
                return false;
            }
        },
        None => {
            return false;
        },
    };
    if text::starts_with(source.device.as_str(), "XHC") {
        return true;
    }
    let ghost dv = devices_view(hw.pci.devices@);
    assert(spec_should_disable_source(source@, *hw) == (match pci_at(dv, addr@, 0) {
        Some(d) => spec_is_usb_pci(d),
        None => false,
    }));
    let mut i: usize = 0;
    while i < hw.pci.devices.len()
        invariant
            i <= hw.pci.devices@.len(),
            dv == devices_view(hw.pci.devices@),
            pci_at(dv, addr@, 0) == pci_at(dv, addr@, i as int),
            spec_should_disable_source(source@, *hw) == (match pci_at(dv, addr@, 0) {
                Some(d) => spec_is_usb_pci(d),
                None => false,
            }),
        decreases hw.pci.devices@.len() - i,
    {
        if text::str_eq(hw.pci.devices[i].address.as_str(), addr.as_str()) {
            assert(pci_at(dv, addr@, i as int) == Some(dv[i as int]));
            return is_usb_pci_device(&hw.pci.devices[i]);
        }
        i = i + 1;
    }
    false
}

/// Whether the wakeup file reports the device as enabled: the first line
/// carrying the device name decides.
pub open spec fn wake_enabled_from(lines: Seq<Seq<char>>, device: Seq<char>, i: int) -> bool
    decreases lines.len() - i,
{
    if i < 0 || i >= lines.len() {
        false
    } else if text::has_prefix(lines[i], device) {
        text::contains_seq(lines[i], "*enabled"@)
    } else {
        wake_enabled_from(lines, device, i + 1)
    }
}

/// Whether `/proc/acpi/wakeup` reports the device as enabled.
pub open spec fn spec_wake_enabled(fsv: SysfsRoot, device: Seq<char>) -> bool {
    match fsv.trimmed_at("proc/acpi/wakeup"@) {
        Some(c) => wake_enabled_from(text::split_lines_seq(c), device, 0),
        None => false,
    }
}

/// Checks the live wakeup file for the device's enabled state.
pub fn is_wakeup_enabled(device: &str, fs: &SysfsRoot) -> (r: bool)
    ensures
        r == spec_wake_enabled(*fs, device@),
{
    let wakeup = match fs.read_opt("proc/acpi/wakeup") {
        Some(w) => w,
        None => {
            return false;
        },
    };
    let lines = text::split_lines(wakeup.as_str());
    let ghost lv = text::split_lines_seq(wakeup@);
    let mut i: usize = 0;
    while i < lines.len()
        invariant
            i <= lines@.len(),
            lv == text::views_of(lines@),
            spec_wake_enabled(*fs, device@) == wake_enabled_from(lv, device@, 0),
            wake_enabled_from(lv, device@, 0) == wake_enabled_from(lv, device@, i as int),
        decreases lines@.len() - i,
    {
        if text::starts_with(lines[i].as_str(), device) {
            return text::contains_sub(lines[i].as_str(), "*enabled");
        }
        i = i + 1;
    }
    false
}

// ---------------------------------------------------------------------------
// Plan building
// ---------------------------------------------------------------------------

/// The per-core EPP writes: one per `cpu<N>` entry whose preference file
/// exists, in listing order.
pub open spec fn epp_writes_from(
    fsv: SysfsRoot,
    names: Seq<Seq<char>>,
    i: int,
    acc: Seq<PlannedWriteView>,
) -> Seq<PlannedWriteView>
    decreases names.len() - i,
{
    if i < 0 || i >= names.len() {
        acc
    } else if crate::detect::cpu::is_cpu_entry(names[i]) && fsv.present(
        fsv.full(
            "sys/devices/system/cpu/"@ + names[i] + "/cpufreq/energy_performance_preference"@,
        ),
    ) {
        epp_writes_from(
            fsv,
            names,
            i + 1,
            acc.push(
                PlannedWriteView {
                    path: "/sys/devices/system/cpu/"@ + names[i]
                        + "/cpufreq/energy_performance_preference"@,
                    value: "balance_power"@,
                    description: "Set "@ + names[i] + " EPP to balance_power"@,
                },
            ),
        )
    } else {
        epp_writes_from(fsv, names, i + 1, acc)
    }
}

/// The per-core EPP writes of the plan, when the preference needs work.
pub open spec fn epp_part(hw: HardwareInfo, fsv: SysfsRoot) -> Seq<PlannedWriteView> {
    if crate::detect::dmi::opt_view(hw.cpu.epp) != Some("balance_power"@)
        && crate::detect::dmi::opt_view(hw.cpu.epp) != Some("power"@) && fsv.dir_present(
        fsv.full("sys/devices/system/cpu"@),
    ) {
        epp_writes_from(fsv, fsv.listing(fsv.full("sys/devices/system/cpu"@)), 0, Seq::empty())
    } else {
        Seq::empty()
    }
}

/// The platform-profile write appended, when the profile needs work.
pub open spec fn profile_append(w: Seq<PlannedWriteView>, hw: HardwareInfo) -> Seq<
    PlannedWriteView,
> {
    if crate::detect::dmi::opt_view(hw.platform.platform_profile) != Some("low-power"@) {
        w.push(
            PlannedWriteView {
                path: "/sys/firmware/acpi/platform_profile"@,
                value: "low-power"@,
                description: "Set platform profile to low-power"@,
            },
        )
    } else {
        w
    }
}

/// The ASPM write appended, when the policy needs work.
pub open spec fn aspm_append(w: Seq<PlannedWriteView>, hw: HardwareInfo) -> Seq<
    PlannedWriteView,
> {
    if crate::detect::dmi::opt_view(hw.pci.aspm_policy) != Some("powersupersave"@) {
        w.push(
            PlannedWriteView {
                path: "/sys/module/pcie_aspm/parameters/policy"@,
                value: "powersupersave"@,
                description: "Set PCIe ASPM policy to powersupersave"@,
            },
        )
    } else {
        w
    }
}

/// The sysfs writes of the plan: per-core EPP, then the platform profile,
/// then the ASPM policy, then per-device runtime PM.
pub open spec fn spec_plan_writes(hw: HardwareInfo, fsv: SysfsRoot) -> Seq<PlannedWriteView> {
    pci_writes_from(
        devices_view(hw.pci.devices@),
        0,
        aspm_append(profile_append(epp_part(hw, fsv), hw), hw),
    )
}

/// The per-device runtime-PM writes, in device order.
pub open spec fn pci_writes_from(
    devs: Seq<PciDeviceView>,
    i: int,
    acc: Seq<PlannedWriteView>,
) -> Seq<PlannedWriteView>
    decreases devs.len() - i,
{
    if i < 0 || i >= devs.len() {
        acc
    } else if devs[i].runtime_pm != Some("auto"@) {
        pci_writes_from(
            devs,
            i + 1,
            acc.push(
                PlannedWriteView {
                    path: "/sys/bus/pci/devices/"@ + devs[i].address + "/power/control"@,
                    value: "auto"@,
                    description: "Enable runtime PM for PCI "@ + devs[i].address,
                },
            ),
        )
    } else {
        pci_writes_from(devs, i + 1, acc)
    }
}

/// The kernel parameters the plan adds.
pub open spec fn spec_plan_params(hw: HardwareInfo) -> Seq<Seq<char>> {
    let ec: Seq<Seq<char>> = if crate::detect::spec_kernel_param_value(
        hw.kernel_cmdline@,
        "acpi.ec_no_wakeup"@,
    ) != Some("1"@) {
        seq!["acpi.ec_no_wakeup=1"@]
    } else {
        Seq::empty()
    };
    let rtc: Seq<Seq<char>> = if crate::detect::spec_kernel_param_value(
        hw.kernel_cmdline@,
        "rtc_cmos.use_acpi_alarm"@,
    ) != Some("1"@) {
        seq!["rtc_cmos.use_acpi_alarm=1"@]
    } else {
        Seq::empty()
    };
    let abm: Seq<Seq<char>> = if hw.gpu.spec_is_amd() && (match crate::detect::spec_kernel_param_value(
        hw.kernel_cmdline@,
        "amdgpu.abmlevel"@,
    ) {
        Some(v) => match text::parse_u32_seq(v) {
            Some(n) => n < 3,
            None => true,
        },
        None => true,
    }) {
        seq!["amdgpu.abmlevel=3"@]
    } else {
        Seq::empty()
    };
    ec + rtc + abm
}

/// The services the plan disables: every probed unit that is active or
/// enabled, in probe order.
pub open spec fn disabled_from(
    states: Seq<crate::audit::services::ServiceStateView>,
    i: int,
    acc: Seq<Seq<char>>,
) -> Seq<Seq<char>>
    decreases states.len() - i,
{
    if i < 0 || i >= states.len() {
        acc
    } else if states[i].active || states[i].enabled {
        disabled_from(states, i + 1, acc.push(states[i].name))
    } else {
        disabled_from(states, i + 1, acc)
    }
}

/// The wake sources the plan disables, in detection order.
pub open spec fn wakeup_disable_from(
    srcs: Seq<WakeupSourceView>,
    hw: HardwareInfo,
    i: int,
    acc: Seq<Seq<char>>,
) -> Seq<Seq<char>>
    decreases srcs.len() - i,
{
    if i < 0 || i >= srcs.len() {
        acc
    } else if spec_should_disable_source(srcs[i], hw) {
        wakeup_disable_from(srcs, hw, i + 1, acc.push(srcs[i].device))
    } else {
        wakeup_disable_from(srcs, hw, i + 1, acc)
    }
}

/// Builds the plan of changes from the detected hardware, the filesystem
/// model, and the probed states of the conflicting services. The result
/// is a function of its inputs alone, so planning twice over one view
/// yields one plan.
pub fn build_plan(
    hw: &HardwareInfo,
    fs: &SysfsRoot,
    service_states: &Vec<ServiceState>,
) -> (plan: ApplyPlan)
    ensures
        writes_view(plan.sysfs_writes@) == spec_plan_writes(*hw, *fs),
        text::views_of(plan.kernel_params@) == spec_plan_params(*hw),
        text::views_of(plan.services_to_disable@) == disabled_from(
            crate::audit::services::states_view(service_states@),
            0,
            Seq::empty(),
        ),
        text::views_of(plan.acpi_wakeup_disable@) == wakeup_disable_from(
            sources_view(hw.platform.acpi_wakeup_sources@),
            *hw,
            0,
            Seq::empty(),
        ),
        plan.systemd_service,
        plan.modprobe_configs@.len() == 0,
{
    let mut sysfs_writes: Vec<PlannedSysfsWrite> = Vec::new();
    assert(writes_view(sysfs_writes@) =~= Seq::<PlannedWriteView>::empty());

    let epp_good = text::opt_is(&hw.cpu.epp, "balance_power") || text::opt_is(
        &hw.cpu.epp,
        "power",
    );
    if !epp_good {
        match fs.list_dir("sys/devices/system/cpu") {
            Ok(cpus) => {
                let ghost nv = text::views_of(cpus@);
                let mut i: usize = 0;
                while i < cpus.len()
                    invariant
                        i <= cpus@.len(),
                        nv == text::views_of(cpus@),
                        nv == fs.listing(fs.full("sys/devices/system/cpu"@)),
                        epp_writes_from(*fs, nv, 0, Seq::empty()) == epp_writes_from(
                            *fs,
                            nv,
                            i as int,
                            writes_view(sysfs_writes@),
                        ),
                    decreases cpus@.len() - i,
                {
                    if crate::detect::cpu::is_cpu_name(cpus[i].as_str()) {
                        let rel = {
                            let mut p = text::concat("sys/devices/system/cpu/", cpus[i].as_str());
                            p.append("/cpufreq/energy_performance_preference");
                            p
                        };
                        assert(rel@ =~= "sys/devices/system/cpu/"@ + nv[i as int]
                            + "/cpufreq/energy_performance_preference"@);
                        if fs.path_exists(rel.as_str()) {
                            let ghost before = writes_view(sysfs_writes@);
                            let abs = {
                                let mut p = text::concat(
                                    "/sys/devices/system/cpu/",
                                    cpus[i].as_str(),
                                );
                                p.append("/cpufreq/energy_performance_preference");
                                p
                            };
                            let desc = {
                                let mut d = text::concat("Set ", cpus[i].as_str());
                                d.append(" EPP to balance_power");
                                d
                            };
                            assert(abs@ =~= "/sys/devices/system/cpu/"@ + nv[i as int]
                                + "/cpufreq/energy_performance_preference"@);
                            assert(desc@ =~= "Set "@ + nv[i as int] + " EPP to balance_power"@);
                            sysfs_writes.push(
                                PlannedSysfsWrite {
                                    path: abs,
                                    value: "balance_power".to_owned(),
                                    description: desc,
                                },
                            );
                            assert(writes_view(sysfs_writes@) =~= before.push(
                                sysfs_writes@.last()@,
                            ));
                        }
                    }
                    i = i + 1;
                }
            },
            Err(_) => {},
        }
    }

    if !text::opt_is(&hw.platform.platform_profile, "low-power") {
        let ghost before = writes_view(sysfs_writes@);
        sysfs_writes.push(
            PlannedSysfsWrite {
                path: "/sys/firmware/acpi/platform_profile".to_owned(),
                value: "low-power".to_owned(),
                description: "Set platform profile to low-power".to_owned(),
            },
        );
        assert(writes_view(sysfs_writes@) =~= before.push(sysfs_writes@.last()@));
    }

    if !text::opt_is(&hw.pci.aspm_policy, "powersupersave") {
        let ghost before = writes_view(sysfs_writes@);
        sysfs_writes.push(
            PlannedSysfsWrite {
                path: "/sys/module/pcie_aspm/parameters/policy".to_owned(),
                value: "powersupersave".to_owned(),
                description: "Set PCIe ASPM policy to powersupersave".to_owned(),
            },
        );
        assert(writes_view(sysfs_writes@) =~= before.push(sysfs_writes@.last()@));
    }

    let ghost mid = writes_view(sysfs_writes@);
    proof {
        assert(mid == aspm_append(profile_append(epp_part(*hw, *fs), *hw), *hw));
    }
    let ghost dv = devices_view(hw.pci.devices@);
    let mut i: usize = 0;
    while i < hw.pci.devices.len()
        invariant
            i <= hw.pci.devices@.len(),
            dv == devices_view(hw.pci.devices@),
            pci_writes_from(dv, 0, mid) == pci_writes_from(dv, i as int, writes_view(
                sysfs_writes@,
            )),
        decreases hw.pci.devices@.len() - i,
    {
        let dev = &hw.pci.devices[i];
        if !text::opt_is(&dev.runtime_pm, "auto") {
            let ghost before = writes_view(sysfs_writes@);
            let path = {
                let mut p = text::concat("/sys/bus/pci/devices/", dev.address.as_str());
                p.append("/power/control");
                p
            };
            let desc = text::concat("Enable runtime PM for PCI ", dev.address.as_str());
            assert(path@ =~= "/sys/bus/pci/devices/"@ + dv[i as int].address
                + "/power/control"@);
            sysfs_writes.push(
                PlannedSysfsWrite {
                    path,
                    value: "auto".to_owned(),
                    description: desc,
                },
            );
            assert(writes_view(sysfs_writes@) =~= before.push(sysfs_writes@.last()@));
        }
        i = i + 1;
    }

    let mut kernel_params: Vec<String> = Vec::new();
    assert(text::views_of(kernel_params@) =~= Seq::<Seq<char>>::empty());
    let ec = hw.kernel_param_value("acpi.ec_no_wakeup");
    if !text::opt_is(&ec, "1") {
        kernel_params.push("acpi.ec_no_wakeup=1".to_owned());
    }
    let ghost kp1 = text::views_of(kernel_params@);
    let rtc = hw.kernel_param_value("rtc_cmos.use_acpi_alarm");
    if !text::opt_is(&rtc, "1") {
        kernel_params.push("rtc_cmos.use_acpi_alarm=1".to_owned());
    }
    let ghost kp2 = text::views_of(kernel_params@);
    if hw.gpu.is_amd() {
        let abm_low: bool = match hw.kernel_param_value("amdgpu.abmlevel") {
            Some(v) => match text::parse_u32(v.as_str()) {
                Some(n) => n < 3,
                None => true,
            },
            None => true,
        };
        if abm_low {
            kernel_params.push("amdgpu.abmlevel=3".to_owned());
        }
    }
    proof {
        assert(text::views_of(kernel_params@) =~= spec_plan_params(*hw));
    }

    let mut services_to_disable: Vec<String> = Vec::new();
    assert(text::views_of(services_to_disable@) =~= Seq::<Seq<char>>::empty());
    let ghost stv = crate::audit::services::states_view(service_states@);
    let mut i: usize = 0;
    while i < service_states.len()
        invariant
            i <= service_states@.len(),
            stv == crate::audit::services::states_view(service_states@),
            disabled_from(stv, 0, Seq::empty()) == disabled_from(
                stv,
                i as int,
                text::views_of(services_to_disable@),
            ),
        decreases service_states@.len() - i,
    {
        let st = &service_states[i];
        if st.active || st.enabled {
            let ghost before = text::views_of(services_to_disable@);
            services_to_disable.push(st.name.clone());
            assert(text::views_of(services_to_disable@) =~= before.push(stv[i as int].name));
        }
        i = i + 1;
    }

    let mut acpi_wakeup_disable: Vec<String> = Vec::new();
    assert(text::views_of(acpi_wakeup_disable@) =~= Seq::<Seq<char>>::empty());
    let ghost sv = sources_view(hw.platform.acpi_wakeup_sources@);
    let mut i: usize = 0;
    while i < hw.platform.acpi_wakeup_sources.len()
        invariant
            i <= hw.platform.acpi_wakeup_sources@.len(),
            sv == sources_view(hw.platform.acpi_wakeup_sources@),
            wakeup_disable_from(sv, *hw, 0, Seq::empty()) == wakeup_disable_from(
                sv,
                *hw,
                i as int,
                text::views_of(acpi_wakeup_disable@),
            ),
        decreases hw.platform.acpi_wakeup_sources@.len() - i,
    {
        let source = &hw.platform.acpi_wakeup_sources[i];
        if should_disable_acpi_wakeup_source(source, hw) {
            let ghost before = text::views_of(acpi_wakeup_disable@);
            acpi_wakeup_disable.push(source.device.clone());
            assert(text::views_of(acpi_wakeup_disable@) =~= before.push(sv[i as int].device));
        }
        i = i + 1;
    }

    ApplyPlan {
        sysfs_writes,
        kernel_params,
        services_to_disable,
        acpi_wakeup_disable,
        systemd_service: true,
        modprobe_configs: Vec::new(),
    }
}

/// Wakeup safety, first half: the planned wake-source disables never
/// name `XHC0`, on any hardware view — the essential controller is
/// filtered out before anything else is considered.
pub proof fn lemma_wakeup_never_xhc0(
    srcs: Seq<WakeupSourceView>,
    hw: HardwareInfo,
    i: int,
    acc: Seq<Seq<char>>,
)
    requires
        0 <= i <= srcs.len(),
        forall|k: int| 0 <= k < acc.len() ==> #[trigger] acc[k] != "XHC0"@,
    ensures
        forall|k: int|
            0 <= k < wakeup_disable_from(srcs, hw, i, acc).len() ==> #[trigger] wakeup_disable_from(
                srcs,
                hw,
                i,
                acc,
            )[k] != "XHC0"@,
    decreases srcs.len() - i,
{
    if 0 <= i < srcs.len() {
        if spec_should_disable_source(srcs[i], hw) {
            let acc2 = acc.push(srcs[i].device);
            assert forall|k: int| 0 <= k < acc2.len() implies #[trigger] acc2[k] != "XHC0"@ by {
                if k < acc.len() {
                    assert(acc[k] != "XHC0"@);
                }
            }
            lemma_wakeup_never_xhc0(srcs, hw, i + 1, acc2);
            assert(wakeup_disable_from(srcs, hw, i, acc) == wakeup_disable_from(
                srcs,
                hw,
                i + 1,
                acc2,
            ));
            assert forall|k: int|
                0 <= k < wakeup_disable_from(srcs, hw, i, acc).len()
                    implies #[trigger] wakeup_disable_from(srcs, hw, i, acc)[k] != "XHC0"@ by {
                assert(wakeup_disable_from(srcs, hw, i, acc)[k] == wakeup_disable_from(
                    srcs,
                    hw,
                    i + 1,
                    acc2,
                )[k]);
            }
        } else {
            lemma_wakeup_never_xhc0(srcs, hw, i + 1, acc);
            assert forall|k: int|
                0 <= k < wakeup_disable_from(srcs, hw, i, acc).len()
                    implies #[trigger] wakeup_disable_from(srcs, hw, i, acc)[k] != "XHC0"@ by {
                assert(wakeup_disable_from(srcs, hw, i, acc)[k] == wakeup_disable_from(
                    srcs,
                    hw,
                    i + 1,
                    acc,
                )[k]);
            }
        }
    } else {
        assert(wakeup_disable_from(srcs, hw, i, acc) == acc);
        assert forall|k: int|
            0 <= k < wakeup_disable_from(srcs, hw, i, acc).len()
                implies #[trigger] wakeup_disable_from(srcs, hw, i, acc)[k] != "XHC0"@ by {
            assert(wakeup_disable_from(srcs, hw, i, acc)[k] == acc[k]);
        }
    }
}

/// Wakeup safety, second half: when no wake source outside the `XHC*`
/// family resolves to a USB-classed PCI device, every planned disable
/// carries the `XHC` prefix — non-USB sources are never auto-toggled.
pub proof fn lemma_wakeup_only_usb(
    srcs: Seq<WakeupSourceView>,
    hw: HardwareInfo,
    i: int,
    acc: Seq<Seq<char>>,
)
    requires
        0 <= i <= srcs.len(),
        forall|j: int|
            0 <= j < srcs.len() && !text::has_prefix(#[trigger] srcs[j].device, "XHC"@)
                ==> !spec_should_disable_source(srcs[j], hw),
        forall|k: int| 0 <= k < acc.len() ==> text::has_prefix(#[trigger] acc[k], "XHC"@),
    ensures
        forall|k: int|
            0 <= k < wakeup_disable_from(srcs, hw, i, acc).len() ==> text::has_prefix(
                #[trigger] wakeup_disable_from(srcs, hw, i, acc)[k],
                "XHC"@,
            ),
    decreases srcs.len() - i,
{
    if 0 <= i < srcs.len() {
        if spec_should_disable_source(srcs[i], hw) {
            assert(text::has_prefix(srcs[i].device, "XHC"@));
            let acc2 = acc.push(srcs[i].device);
            assert forall|k: int| 0 <= k < acc2.len() implies text::has_prefix(
                #[trigger] acc2[k],
                "XHC"@,
            ) by {
                if k < acc.len() {
                    assert(text::has_prefix(acc[k], "XHC"@));
                }
            }
            lemma_wakeup_only_usb(srcs, hw, i + 1, acc2);
            assert forall|k: int|
                0 <= k < wakeup_disable_from(srcs, hw, i, acc).len() implies text::has_prefix(
                #[trigger] wakeup_disable_from(srcs, hw, i, acc)[k],
                "XHC"@,
            ) by {
                assert(wakeup_disable_from(srcs, hw, i, acc)[k] == wakeup_disable_from(
                    srcs,
                    hw,
                    i + 1,
                    acc2,
                )[k]);
            }
        } else {
            lemma_wakeup_only_usb(srcs, hw, i + 1, acc);
            assert forall|k: int|
                0 <= k < wakeup_disable_from(srcs, hw, i, acc).len() implies text::has_prefix(
                #[trigger] wakeup_disable_from(srcs, hw, i, acc)[k],
                "XHC"@,
            ) by {
                assert(wakeup_disable_from(srcs, hw, i, acc)[k] == wakeup_disable_from(
                    srcs,
                    hw,
                    i + 1,
                    acc,
                )[k]);
            }
        }
    } else {
        assert(wakeup_disable_from(srcs, hw, i, acc) == acc);
        assert forall|k: int|
            0 <= k < wakeup_disable_from(srcs, hw, i, acc).len() implies text::has_prefix(
            #[trigger] wakeup_disable_from(srcs, hw, i, acc)[k],
            "XHC"@,
        ) by {
            assert(wakeup_disable_from(srcs, hw, i, acc)[k] == acc[k]);
        }
    }
}

/// Idempotent planning: the plan is a function of the hardware view, the
/// filesystem model and the probed service states alone, so building it
/// twice over one view yields value-equal plans.
pub proof fn lemma_planning_idempotent(
    hw: HardwareInfo,
    fsv: SysfsRoot,
    states: Seq<crate::audit::services::ServiceStateView>,
    p1: ApplyPlan,
    p2: ApplyPlan,
)
    requires
        writes_view(p1.sysfs_writes@) == spec_plan_writes(hw, fsv),
        text::views_of(p1.kernel_params@) == spec_plan_params(hw),
        text::views_of(p1.services_to_disable@) == disabled_from(states, 0, Seq::empty()),
        text::views_of(p1.acpi_wakeup_disable@) == wakeup_disable_from(
            sources_view(hw.platform.acpi_wakeup_sources@),
            hw,
            0,
            Seq::empty(),
        ),
        p1.systemd_service,
        p1.modprobe_configs@.len() == 0,
        writes_view(p2.sysfs_writes@) == spec_plan_writes(hw, fsv),
        text::views_of(p2.kernel_params@) == spec_plan_params(hw),
        text::views_of(p2.services_to_disable@) == disabled_from(states, 0, Seq::empty()),
        text::views_of(p2.acpi_wakeup_disable@) == wakeup_disable_from(
            sources_view(hw.platform.acpi_wakeup_sources@),
            hw,
            0,
            Seq::empty(),
        ),
        p2.systemd_service,
        p2.modprobe_configs@.len() == 0,
    ensures
        writes_view(p1.sysfs_writes@) == writes_view(p2.sysfs_writes@),
        text::views_of(p1.kernel_params@) == text::views_of(p2.kernel_params@),
        text::views_of(p1.services_to_disable@) == text::views_of(p2.services_to_disable@),
        text::views_of(p1.acpi_wakeup_disable@) == text::views_of(p2.acpi_wakeup_disable@),
        p1.systemd_service == p2.systemd_service,
        p1.modprobe_configs@.len() == p2.modprobe_configs@.len(),
{
}

// ---------------------------------------------------------------------------
// The apply engine
// ---------------------------------------------------------------------------

/// Relies on chrono's `Utc::now().to_rfc3339()` for the journal timestamp;
/// the result depends on the clock, so nothing is promised of it.
#[verifier::external_body]
fn rfc3339_now() -> String {
    chrono::Utc::now().to_rfc3339()
}

/// The side-effect surface the engine drives. The real implementation
/// calls the live system; tests inject fakes, fault by fault.
pub trait ApplyOps {
    /// Writes a value to an absolute sysfs path.
    fn write_sysfs(&mut self, path: &str, value: &str) -> Result<(), Error>;

    /// Flips one ACPI wake source.
    fn toggle_acpi_wakeup(&mut self, device: &str) -> Result<(), Error>;

    /// Adds kernel parameters to the bootloader, returning the backups of
    /// every changed file.
    fn add_kernel_params(&mut self, params: &Vec<String>) -> Result<Vec<KernelParamBackup>, Error>;

    /// Stops and disables a systemd unit.
    fn disable_service(&mut self, service: &str) -> Result<(), Error>;

    /// Generates the boot-persistence unit, returning its path.
    fn generate_service(&mut self, hw: &HardwareInfo, plan: &ApplyPlan) -> Result<String, Error>;

    /// Enables the generated unit.
    fn enable_systemd_service(&mut self) -> Result<(), Error>;

    /// Persists the journal: a checkpoint fence.
    fn save_state(&mut self, state: &ApplyState) -> Result<(), Error>;
}

/// A fence: persists the journal when this run has recorded anything.
/// With nothing recorded there is nothing to persist, so nothing can
/// fail.
fn persist_state_checkpoint<O: ApplyOps>(ops: &mut O, state: &ApplyState) -> (r: Result<
    (),
    Error,
>)
    ensures
        !state.spec_has_recorded_changes() ==> r is Ok,
{
    if state.has_recorded_changes() {
        match ops.save_state(state) {
            Ok(()) => Ok(()),
            Err(e) => Err(e),
        }
    } else {
        Ok(())
    }
}

/// The value recorded as a change's original: the trimmed live content,
/// or empty when the file cannot be read.
pub open spec fn spec_original_of(fsv: SysfsRoot, path: Seq<char>) -> Seq<char> {
    let rel = if text::has_prefix(path, "/"@) {
        path.subrange(1, path.len() as int)
    } else {
        path
    };
    match fsv.trimmed_at(rel) {
        Some(v) => v,
        None => Seq::empty(),
    }
}

/// The wake sources the engine toggles: the planned ones the live file
/// reports enabled, in plan order.
pub open spec fn toggled_from(
    fsv: SysfsRoot,
    devices: Seq<Seq<char>>,
    i: int,
    acc: Seq<Seq<char>>,
) -> Seq<Seq<char>>
    decreases devices.len() - i,
{
    if i < 0 || i >= devices.len() {
        acc
    } else if spec_wake_enabled(fsv, devices[i]) {
        toggled_from(fsv, devices, i + 1, acc.push(devices[i]))
    } else {
        toggled_from(fsv, devices, i + 1, acc)
    }
}

/// The previous journal's backups, empty when none is there.
pub open spec fn prev_backups_view(previous_state: Option<&ApplyState>) -> Seq<
    crate::journal::BackupView,
> {
    match previous_state {
        Some(prev) => backups_view(prev.kernel_param_backups@),
        None => Seq::empty(),
    }
}

/// Executes the plan through the capability surface, checkpointing the
/// journal after every terminal group of same-kind mutations, so that a
/// crash or a failure between groups is recoverable from the persisted
/// journal. On a dry run nothing is called and an empty journal comes
/// back. A failed step aborts the run; everything recorded up to the last
/// fence has already been persisted through `save_state`.
pub fn execute_plan_with_ops<O: ApplyOps>(
    plan: &ApplyPlan,
    hw: &HardwareInfo,
    fs: &SysfsRoot,
    previous_state: Option<&ApplyState>,
    dry_run: bool,
    ops: &mut O,
) -> (r: Result<ApplyState, Error>)
    ensures
        dry_run ==> r is Ok && !r->Ok_0.spec_has_recorded_changes(),
        !dry_run && plan.sysfs_writes@.len() == 0 && plan.acpi_wakeup_disable@.len() == 0
            && plan.kernel_params@.len() == 0 && plan.services_to_disable@.len() == 0
            ==> r is Ok,
        !dry_run && r is Ok ==> ({
            let st = r->Ok_0;
            &&& st.sysfs_changes@.len() == plan.sysfs_writes@.len()
            &&& forall|i: int|
                0 <= i < plan.sysfs_writes@.len() ==> {
                    let c = #[trigger] changes_view(st.sysfs_changes@)[i];
                    &&& c.path == writes_view(plan.sysfs_writes@)[i].path
                    &&& c.new_value == writes_view(plan.sysfs_writes@)[i].value
                    &&& c.original_value == spec_original_of(
                        *fs,
                        writes_view(plan.sysfs_writes@)[i].path,
                    )
                }
            &&& text::views_of(st.acpi_wakeup_toggled@) == toggled_from(
                *fs,
                text::views_of(plan.acpi_wakeup_disable@),
                0,
                Seq::empty(),
            )
            &&& if plan.kernel_params@.len() > 0 {
                text::views_of(st.kernel_params_added@) == text::views_of(plan.kernel_params@)
                    && exists|fresh: Seq<crate::journal::BackupView>|
                    backups_view(st.kernel_param_backups@) == #[trigger] merge_backups(
                        prev_backups_view(previous_state),
                        fresh,
                    )
            } else {
                st.kernel_params_added@.len() == 0 && st.kernel_param_backups@.len() == 0
            }
            &&& text::views_of(st.services_disabled@) == text::views_of(
                plan.services_to_disable@,
            )
            &&& st.systemd_units_created@.len() == (
            if plan.systemd_service && plan.sysfs_writes@.len() > 0 {
                1int
            } else {
                0int
            })
            &&& st.modprobe_files_created@.len() == 0
            &&& st.brightness_original is None
        }),
{
    let mut state = ApplyState::default();
    state.timestamp = rfc3339_now();
    if dry_run {
        return Ok(state);
    }

    let ghost pw = writes_view(plan.sysfs_writes@);
    let mut i: usize = 0;
    while i < plan.sysfs_writes.len()
        invariant
            !dry_run,
            i <= plan.sysfs_writes@.len(),
            pw == writes_view(plan.sysfs_writes@),
            state.sysfs_changes@.len() == i,
            forall|j: int|
                0 <= j < i ==> {
                    let c = #[trigger] changes_view(state.sysfs_changes@)[j];
                    &&& c.path == pw[j].path
                    &&& c.new_value == pw[j].value
                    &&& c.original_value == spec_original_of(*fs, pw[j].path)
                },
            state.kernel_params_added@.len() == 0,
            state.kernel_param_backups@.len() == 0,
            state.services_disabled@.len() == 0,
            state.systemd_units_created@.len() == 0,
            state.modprobe_files_created@.len() == 0,
            state.acpi_wakeup_toggled@.len() == 0,
            state.brightness_original is None,
        decreases plan.sysfs_writes@.len() - i,
    {
        let w = &plan.sysfs_writes[i];
        let relative: String = if text::starts_with(w.path.as_str(), "/") {
            let n = w.path.as_str().unicode_len();
            let plen = "/".unicode_len();
            proof {
                reveal_strlit("/");
                assert("/"@.len() == 1);
            }
            text::substring_of(w.path.as_str(), plen, n)
        } else {
            w.path.clone()
        };
        let original: String = match fs.read_opt(relative.as_str()) {
            Some(v) => v,
            None => String::new(),
        };
        match ops.write_sysfs(w.path.as_str(), w.value.as_str()) {
            Ok(()) => {},
            Err(e) => {
                return Err(e);
            },
        }
        let ghost before = changes_view(state.sysfs_changes@);
        state.sysfs_changes.push(
            SysfsChange {
                path: w.path.clone(),
                original_value: original,
                new_value: w.value.clone(),
            },
        );
        assert(changes_view(state.sysfs_changes@) =~= before.push(
            state.sysfs_changes@.last()@,
        ));
        i = i + 1;
    }

    let ghost wd = text::views_of(plan.acpi_wakeup_disable@);
    assert(text::views_of(state.acpi_wakeup_toggled@) =~= Seq::<Seq<char>>::empty());
    let mut i: usize = 0;
    while i < plan.acpi_wakeup_disable.len()
        invariant
            !dry_run,
            i <= plan.acpi_wakeup_disable@.len(),
            wd == text::views_of(plan.acpi_wakeup_disable@),
            pw == writes_view(plan.sysfs_writes@),
            state.sysfs_changes@.len() == plan.sysfs_writes@.len(),
            forall|j: int|
                0 <= j < plan.sysfs_writes@.len() ==> {
                    let c = #[trigger] changes_view(state.sysfs_changes@)[j];
                    &&& c.path == pw[j].path
                    &&& c.new_value == pw[j].value
                    &&& c.original_value == spec_original_of(*fs, pw[j].path)
                },
            toggled_from(*fs, wd, 0, Seq::empty()) == toggled_from(
                *fs,
                wd,
                i as int,
                text::views_of(state.acpi_wakeup_toggled@),
            ),
            state.kernel_params_added@.len() == 0,
            state.kernel_param_backups@.len() == 0,
            state.services_disabled@.len() == 0,
            state.systemd_units_created@.len() == 0,
            state.modprobe_files_created@.len() == 0,
            state.brightness_original is None,
        decreases plan.acpi_wakeup_disable@.len() - i,
    {
        let device = &plan.acpi_wakeup_disable[i];
        if is_wakeup_enabled(device.as_str(), fs) {
            match ops.toggle_acpi_wakeup(device.as_str()) {
                Ok(()) => {},
                Err(e) => {
                    return Err(e);
                },
            }
            let ghost before = text::views_of(state.acpi_wakeup_toggled@);
            state.acpi_wakeup_toggled.push(device.clone());
            assert(text::views_of(state.acpi_wakeup_toggled@) =~= before.push(wd[i as int]));
        }
        i = i + 1;
    }
    match persist_state_checkpoint(ops, &state) {
        Ok(()) => {},
        Err(e) => {
            return Err(e);
        },
    }

    if plan.kernel_params.len() > 0 {
        let backups = match ops.add_kernel_params(&plan.kernel_params) {
            Ok(b) => b,
            Err(e) => {
                return Err(e);
            },
        };
        let ghost fresh = backups_view(backups@);
        merge_kernel_param_state(&mut state, &plan.kernel_params, backups, previous_state);
        proof {
            assert(backups_view(state.kernel_param_backups@) == merge_backups(
                prev_backups_view(previous_state),
                fresh,
            ));
        }
    }
    match persist_state_checkpoint(ops, &state) {
        Ok(()) => {},
        Err(e) => {
            return Err(e);
        },
    }

    let ghost sd = text::views_of(plan.services_to_disable@);
    assert(text::views_of(state.services_disabled@) =~= sd.subrange(0, 0));
    let mut i: usize = 0;
    while i < plan.services_to_disable.len()
        invariant
            !dry_run,
            i <= plan.services_to_disable@.len(),
            sd == text::views_of(plan.services_to_disable@),
            text::views_of(state.services_disabled@) == sd.subrange(0, i as int),
            pw == writes_view(plan.sysfs_writes@),
            state.sysfs_changes@.len() == plan.sysfs_writes@.len(),
            forall|j: int|
                0 <= j < plan.sysfs_writes@.len() ==> {
                    let c = #[trigger] changes_view(state.sysfs_changes@)[j];
                    &&& c.path == pw[j].path
                    &&& c.new_value == pw[j].value
                    &&& c.original_value == spec_original_of(*fs, pw[j].path)
                },
            text::views_of(state.acpi_wakeup_toggled@) == toggled_from(
                *fs,
                text::views_of(plan.acpi_wakeup_disable@),
                0,
                Seq::empty(),
            ),
            plan.kernel_params@.len() > 0 ==> text::views_of(state.kernel_params_added@)
                == text::views_of(plan.kernel_params@) && (exists|
                fresh: Seq<crate::journal::BackupView>,
            |
                backups_view(state.kernel_param_backups@) == #[trigger] merge_backups(
                    prev_backups_view(previous_state),
                    fresh,
                )),
            plan.kernel_params@.len() == 0 ==> state.kernel_params_added@.len() == 0
                && state.kernel_param_backups@.len() == 0,
            state.systemd_units_created@.len() == 0,
            state.modprobe_files_created@.len() == 0,
            state.brightness_original is None,
        decreases plan.services_to_disable@.len() - i,
    {
        let svc = &plan.services_to_disable[i];
        match ops.disable_service(svc.as_str()) {
            Ok(()) => {},
            Err(e) => {
                return Err(e);
            },
        }
        let ghost before = text::views_of(state.services_disabled@);
        state.services_disabled.push(svc.clone());
        assert(text::views_of(state.services_disabled@) =~= before.push(sd[i as int]));
        assert(text::views_of(state.services_disabled@) =~= sd.subrange(0, i + 1));
        i = i + 1;
    }
    proof {
        assert(sd.subrange(0, sd.len() as int) =~= sd);
    }
    match persist_state_checkpoint(ops, &state) {
        Ok(()) => {},
        Err(e) => {
            return Err(e);
        },
    }

    if plan.systemd_service && plan.sysfs_writes.len() > 0 {
        let unit_path = match ops.generate_service(hw, plan) {
            Ok(p) => p,
            Err(e) => {
                return Err(e);
            },
        };
        state.systemd_units_created.push(unit_path);
        // Persist at once, so a failure of the enable step that follows is
        // still recoverable through the journal.
        match persist_state_checkpoint(ops, &state) {
            Ok(()) => {},
            Err(e) => {
                return Err(e);
            },
        }
        match ops.enable_systemd_service() {
            Ok(()) => {},
            Err(e) => {
                return Err(e);
            },
        }
    }

    Ok(state)
}

} // verus!
