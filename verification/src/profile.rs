//! Hardware profiles: laptop-specific audit knowledge, with a generic
//! fallback. The first profile whose predicate matches is the one used.

use vstd::prelude::*;
use crate::audit::services::ServiceState;
use crate::audit::{findings_view, Finding, FindingView};
use crate::detect::HardwareInfo;
use crate::fs::SysfsRoot;

verus! {

/// What a hardware profile provides: a display name, a match predicate
/// and its audit ruleset.
pub trait HardwareProfile {
    /// Display name for this profile.
    fn name(&self) -> String;

    /// Whether this profile matches the detected hardware.
    fn matches(&self, hw: &HardwareInfo) -> bool;

    /// Runs the profile's audit checks over the view, the filesystem
    /// model, the probed service states and the WiFi power-save output.
    fn audit_with_opts(
        &self,
        hw: &HardwareInfo,
        fs: &SysfsRoot,
        probes: &Vec<ServiceState>,
        iw_output: Option<String>,
        aggressive: bool,
    ) -> Vec<Finding>;
}

/// The Framework Laptop 16 profile.
#[derive(Debug, Clone, Copy)]
pub struct Framework16Amd;

/// The fallback profile for any laptop with a battery.
#[derive(Debug, Clone, Copy)]
pub struct GenericLaptop;

/// Moves findings from one list onto the end of another.
fn extend_findings(dst: &mut Vec<Finding>, src: Vec<Finding>)
    ensures
        findings_view(final(dst)@) == findings_view(old(dst)@) + findings_view(src@),
{
    let mut tail = src;
    let ghost pre_dst = dst@;
    let ghost pre_tail = tail@;
    dst.append(&mut tail);
    proof {
        assert(findings_view(dst@) =~= findings_view(pre_dst) + findings_view(pre_tail));
    }
}

/// The findings the Framework Laptop 16 ruleset emits, in rule order.
pub open spec fn fw16_findings(
    hw: HardwareInfo,
    fsv: SysfsRoot,
    probes: Seq<crate::audit::services::ServiceStateView>,
    iw: Option<Seq<char>>,
) -> Seq<FindingView> {
    crate::audit::kernel_params::kernel_findings(hw) + crate::audit::cpu_power::cpu_findings(hw)
        + crate::audit::gpu_power::gpu_findings(hw) + crate::audit::pci_power::pci_findings(
        hw,
        false,
    ) + crate::audit::usb_power::usb_findings(fsv, false) + crate::audit::audio::audio_findings(
        fsv,
    ) + crate::audit::network_power::network_findings(hw, iw)
        + crate::audit::sleep::sleep_findings(hw, fsv)
        + crate::audit::services::service_findings_from(probes, 0, Seq::empty())
        + crate::audit::display::display_findings(hw, fsv)
        + crate::audit::sysctl::sysctl_findings(fsv)
}

impl Framework16Amd {
    /// Whether the view is a Framework Laptop 16 on an AMD part.
    pub fn profile_matches(&self, hw: &HardwareInfo) -> (r: bool)
        ensures
            r == (hw.dmi.spec_is_framework_16() && hw.cpu.vendor is Some && hw.cpu.vendor->0@
                == "AuthenticAMD"@),
    {
        hw.dmi.is_framework_16() && hw.cpu.is_amd()
    }

    /// Runs every rule of the Framework Laptop 16 ruleset, in order.
    pub fn audit(
        &self,
        hw: &HardwareInfo,
        fs: &SysfsRoot,
        probes: &Vec<ServiceState>,
        iw_output: Option<String>,
    ) -> (r: Vec<Finding>)
        ensures
            findings_view(r@) == fw16_findings(
                *hw,
                *fs,
                crate::audit::services::states_view(probes@),
                crate::detect::dmi::opt_view(iw_output),
            ),
    {
        let mut findings = crate::audit::kernel_params::check(hw);
        extend_findings(&mut findings, crate::audit::cpu_power::check(hw));
        extend_findings(&mut findings, crate::audit::gpu_power::check(hw));
        extend_findings(&mut findings, crate::audit::pci_power::check(hw));
        extend_findings(&mut findings, crate::audit::usb_power::check(fs));
        extend_findings(&mut findings, crate::audit::audio::check(fs));
        extend_findings(&mut findings, crate::audit::network_power::check(hw, iw_output));
        extend_findings(&mut findings, crate::audit::sleep::check(hw, fs));
        extend_findings(&mut findings, crate::audit::services::check(probes));
        extend_findings(&mut findings, crate::audit::display::check(hw, fs));
        extend_findings(&mut findings, crate::audit::sysctl::check(fs));
        findings
    }
}

/// The findings the generic ruleset emits, in rule order.
pub open spec fn generic_findings(
    hw: HardwareInfo,
    fsv: SysfsRoot,
    probes: Seq<crate::audit::services::ServiceStateView>,
    iw: Option<Seq<char>>,
    aggressive: bool,
) -> Seq<FindingView> {
    crate::audit::cpu_power::cpu_findings(hw) + crate::audit::pci_power::pci_findings(
        hw,
        aggressive,
    ) + crate::audit::usb_power::usb_findings(fsv, aggressive)
        + crate::audit::audio::audio_findings(fsv)
        + crate::audit::network_power::network_findings(hw, iw)
        + crate::audit::sleep::sleep_findings(hw, fsv)
        + crate::audit::services::service_findings_from(probes, 0, Seq::empty())
        + crate::audit::sysctl::sysctl_findings(fsv)
}

impl GenericLaptop {
    /// Whether the view holds a battery at all.
    pub fn profile_matches(&self, hw: &HardwareInfo) -> (r: bool)
        ensures
            r == hw.battery.present,
    {
        hw.battery.present
    }

    /// Runs every rule of the generic ruleset, in order.
    pub fn audit_with_opts(
        &self,
        hw: &HardwareInfo,
        fs: &SysfsRoot,
        probes: &Vec<ServiceState>,
        iw_output: Option<String>,
        aggressive: bool,
    ) -> (r: Vec<Finding>)
        ensures
            findings_view(r@) == generic_findings(
                *hw,
                *fs,
                crate::audit::services::states_view(probes@),
                crate::detect::dmi::opt_view(iw_output),
                aggressive,
            ),
    {
        let mut findings = crate::audit::cpu_power::check(hw);
        extend_findings(
            &mut findings,
            crate::audit::pci_power::check_with_opts(hw, aggressive),
        );
        extend_findings(
            &mut findings,
            crate::audit::usb_power::check_with_opts(fs, aggressive),
        );
        extend_findings(&mut findings, crate::audit::audio::check(fs));
        extend_findings(&mut findings, crate::audit::network_power::check(hw, iw_output));
        extend_findings(&mut findings, crate::audit::sleep::check(hw, fs));
        extend_findings(&mut findings, crate::audit::services::check(probes));
        extend_findings(&mut findings, crate::audit::sysctl::check(fs));
        findings
    }
}

impl HardwareProfile for Framework16Amd {
    fn name(&self) -> String {
        "Framework Laptop 16 (AMD Ryzen 7040 Series)".to_owned()
    }

    fn matches(&self, hw: &HardwareInfo) -> bool {
        self.profile_matches(hw)
    }

    fn audit_with_opts(
        &self,
        hw: &HardwareInfo,
        fs: &SysfsRoot,
        probes: &Vec<ServiceState>,
        iw_output: Option<String>,
        aggressive: bool,
    ) -> Vec<Finding> {
        self.audit(hw, fs, probes, iw_output)
    }
}

impl HardwareProfile for GenericLaptop {
    fn name(&self) -> String {
        "Generic Linux Laptop".to_owned()
    }

    fn matches(&self, hw: &HardwareInfo) -> bool {
        self.profile_matches(hw)
    }

    fn audit_with_opts(
        &self,
        hw: &HardwareInfo,
        fs: &SysfsRoot,
        probes: &Vec<ServiceState>,
        iw_output: Option<String>,
        aggressive: bool,
    ) -> Vec<Finding> {
        GenericLaptop::audit_with_opts(self, hw, fs, probes, iw_output, aggressive)
    }
}

/// One registry entry: the profiles the library knows, in priority order.
#[derive(Debug, Clone, Copy, PartialEq, Eq, Structural)]
pub enum Profile {
    Framework16Amd,
    GenericLaptop,
}

impl Profile {
    /// The profile's display name.
    pub fn name(&self) -> (r: String)
        ensures
            *self == Profile::Framework16Amd ==> r@ == "Framework Laptop 16 (AMD Ryzen 7040 Series)"@,
            *self == Profile::GenericLaptop ==> r@ == "Generic Linux Laptop"@,
    {
        match self {
            Profile::Framework16Amd => "Framework Laptop 16 (AMD Ryzen 7040 Series)".to_owned(),
            Profile::GenericLaptop => "Generic Linux Laptop".to_owned(),
        }
    }
}

/// Every known profile, specific ones first, the generic fallback last.
pub fn all_profiles() -> (r: Vec<Profile>)
    ensures
        r@.len() == 2,
        r@[0] == Profile::Framework16Amd,
        r@[1] == Profile::GenericLaptop,
{
    let mut v: Vec<Profile> = Vec::new();
    v.push(Profile::Framework16Amd);
    v.push(Profile::GenericLaptop);
    v
}

/// The first profile whose predicate matches the view, if any.
pub fn detect_profile(hw: &HardwareInfo) -> (r: Option<Profile>)
    ensures
        r == if hw.dmi.spec_is_framework_16() && hw.cpu.vendor is Some && hw.cpu.vendor->0@
            == "AuthenticAMD"@ {
            Some(Profile::Framework16Amd)
        } else if hw.battery.present {
            Some(Profile::GenericLaptop)
        } else {
            None::<Profile>
        },
{
    if (Framework16Amd).profile_matches(hw) {
        return Some(Profile::Framework16Amd);
    }
    if (GenericLaptop).profile_matches(hw) {
        return Some(Profile::GenericLaptop);
    }
    None
}

} // verus!
