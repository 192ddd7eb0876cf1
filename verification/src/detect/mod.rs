//! Hardware detection: one pure projection of the filesystem model into a
//! typed record of the machine.

pub mod ac;
pub mod battery;
pub mod cpu;
pub mod dmi;
pub mod gpu;
pub mod network;
pub mod pci;
pub mod platform;

use vstd::prelude::*;
use crate::fs::SysfsRoot;
use crate::text;

verus! {

/// Everything detection reads, gathered once per invocation.
#[derive(Debug, Clone)]
pub struct HardwareInfo {
    pub dmi: dmi::DmiInfo,
    pub cpu: cpu::CpuInfo,
    pub gpu: gpu::GpuInfo,
    pub battery: battery::BatteryInfo,
    pub pci: pci::PciInfo,
    pub network: network::NetworkInfo,
    pub platform: platform::PlatformInfo,
    pub ac: ac::AcInfo,
    pub kernel_cmdline: String,
}

/// Whether a command-line token sets the parameter: the bare name, or the
/// name followed by `=`.
pub open spec fn tok_sets_param(t: Seq<char>, param: Seq<char>) -> bool {
    t == param || text::has_prefix(t, param + seq!['='])
}

/// Whether the command line holds the parameter.
pub open spec fn spec_has_kernel_param(cmdline: Seq<char>, param: Seq<char>) -> bool {
    exists|i: int|
        0 <= i < text::split_ws(cmdline).len() && tok_sets_param(
            #[trigger] text::split_ws(cmdline)[i],
            param,
        )
}

/// The value of the first `param=` token on the command line.
pub open spec fn param_value_from(toks: Seq<Seq<char>>, param: Seq<char>, i: int) -> Option<
    Seq<char>,
>
    decreases toks.len() - i,
{
    if i < 0 || i >= toks.len() {
        None
    } else if text::has_prefix(toks[i], param + seq!['=']) {
        Some(toks[i].subrange(param.len() as int + 1, toks[i].len() as int))
    } else {
        param_value_from(toks, param, i + 1)
    }
}

/// The value of the parameter on the command line, if it is set with one.
pub open spec fn spec_kernel_param_value(cmdline: Seq<char>, param: Seq<char>) -> Option<
    Seq<char>,
> {
    param_value_from(text::split_ws(cmdline), param, 0)
}

impl HardwareInfo {
    /// Detects every subsystem off the filesystem model. The clauses
    /// here tie the fields that planning and auditing decide on back to
    /// the model; each subsystem's own `detect` pins the rest.
    pub fn detect(fs: &SysfsRoot) -> (r: Self)
        ensures
            r.kernel_cmdline@ == match fs.trimmed_at("proc/cmdline"@) {
                Some(c) => c,
                None => Seq::<char>::empty(),
            },
            dmi::opt_view(r.cpu.epp) == fs.trimmed_at(
                "sys/devices/system/cpu/cpu0/cpufreq/energy_performance_preference"@,
            ),
            dmi::opt_view(r.platform.platform_profile) == fs.trimmed_at(
                "sys/firmware/acpi/platform_profile"@,
            ),
            dmi::opt_view(r.pci.aspm_policy) == match fs.trimmed_at(
                "sys/module/pcie_aspm/parameters/policy"@,
            ) {
                Some(v) => pci::spec_aspm_active(v),
                None => None,
            },
            pci::devices_view(r.pci.devices@) == if fs.dir_present(
                fs.full("sys/bus/pci/devices"@),
            ) {
                pci::pci_devices_from(
                    *fs,
                    fs.listing(fs.full("sys/bus/pci/devices"@)),
                    0,
                    Seq::empty(),
                )
            } else {
                Seq::empty()
            },
            platform::sources_view(r.platform.acpi_wakeup_sources@)
                == platform::spec_wakeup_sources(fs.trimmed_at("proc/acpi/wakeup"@)),
            dmi::opt_view(r.dmi.board_vendor) == fs.trimmed_at(
                "sys/class/dmi/id/board_vendor"@,
            ),
    {
        let kernel_cmdline = match fs.read_opt("proc/cmdline") {
            Some(c) => c,
            None => String::new(),
        };
        HardwareInfo {
            dmi: dmi::DmiInfo::detect(fs),
            cpu: cpu::CpuInfo::detect(fs),
            gpu: gpu::GpuInfo::detect(fs),
            battery: battery::BatteryInfo::detect(fs),
            pci: pci::PciInfo::detect(fs),
            network: network::NetworkInfo::detect(fs),
            platform: platform::PlatformInfo::detect(fs),
            ac: ac::AcInfo::detect(fs),
            kernel_cmdline,
        }
    }

    /// Whether the command line holds the parameter, bare or with a
    /// value.
    pub fn has_kernel_param(&self, param: &str) -> (r: bool)
        ensures
            r == spec_has_kernel_param(self.kernel_cmdline@, param@),
    {
        let toks = text::split_whitespace(self.kernel_cmdline.as_str());
        let ghost tv = text::split_ws(self.kernel_cmdline@);
        let prefix = {
            let mut p = param.to_owned();
            text::push_char(&mut p, '=');
            p
        };
        assert(prefix@ =~= param@ + seq!['=']);
        let mut i: usize = 0;
        while i < toks.len()
            invariant
                i <= toks@.len(),
                tv == text::views_of(toks@),
                tv == text::split_ws(self.kernel_cmdline@),
                prefix@ == param@ + seq!['='],
                forall|j: int| 0 <= j < i ==> !tok_sets_param(#[trigger] tv[j], param@),
            decreases toks@.len() - i,
        {
            if text::str_eq(toks[i].as_str(), param) || text::starts_with(
                toks[i].as_str(),
                prefix.as_str(),
            ) {
                assert(tok_sets_param(tv[i as int], param@));
                return true;
            }
            i = i + 1;
        }
        false
    }

    /// The value the command line sets for the parameter, if any.
    pub fn kernel_param_value(&self, param: &str) -> (r: Option<String>)
        ensures
            match r {
                Some(v) => spec_kernel_param_value(self.kernel_cmdline@, param@) == Some(v@),
                None => spec_kernel_param_value(self.kernel_cmdline@, param@) is None,
            },
    {
        let toks = text::split_whitespace(self.kernel_cmdline.as_str());
        let ghost tv = text::split_ws(self.kernel_cmdline@);
        let prefix = {
            let mut p = param.to_owned();
            text::push_char(&mut p, '=');
            p
        };
        assert(prefix@ =~= param@ + seq!['=']);
        let plen = prefix.as_str().unicode_len();
        let mut i: usize = 0;
        while i < toks.len()
            invariant
                i <= toks@.len(),
                tv == text::views_of(toks@),
                tv == text::split_ws(self.kernel_cmdline@),
                prefix@ == param@ + seq!['='],
                plen == param@.len() + 1,
                param_value_from(tv, param@, 0) == param_value_from(tv, param@, i as int),
            decreases toks@.len() - i,
        {
            if text::starts_with(toks[i].as_str(), prefix.as_str()) {
                let n = toks[i].as_str().unicode_len();
                return Some(text::substring_of(toks[i].as_str(), plen, n));
            }
            i = i + 1;
        }
        None
    }
}

} // verus!
