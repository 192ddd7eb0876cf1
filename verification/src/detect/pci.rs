//! PCI device enumeration and ASPM policy.

use vstd::prelude::*;
use crate::detect::dmi::opt_view;
use crate::fs::SysfsRoot;
use crate::text;

verus! {

/// One PCI device's identity and runtime-PM state.
#[derive(Debug, Clone)]
pub struct PciDevice {
    pub address: String,
    pub class: Option<String>,
    pub vendor: Option<String>,
    pub device: Option<String>,
    pub driver: Option<String>,
    pub runtime_pm: Option<String>,
    pub runtime_status: Option<String>,
}

/// View of a [`PciDevice`].
pub struct PciDeviceView {
    pub address: Seq<char>,
    pub class: Option<Seq<char>>,
    pub vendor: Option<Seq<char>>,
    pub device: Option<Seq<char>>,
    pub driver: Option<Seq<char>>,
    pub runtime_pm: Option<Seq<char>>,
    pub runtime_status: Option<Seq<char>>,
}

impl View for PciDevice {
    type V = PciDeviceView;

    open spec fn view(&self) -> PciDeviceView {
        PciDeviceView {
            address: self.address@,
            class: opt_view(self.class),
            vendor: opt_view(self.vendor),
            device: opt_view(self.device),
            driver: opt_view(self.driver),
            runtime_pm: opt_view(self.runtime_pm),
            runtime_status: opt_view(self.runtime_status),
        }
    }
}

/// Views of a vector of PCI devices.
pub open spec fn devices_view(v: Seq<PciDevice>) -> Seq<PciDeviceView> {
    v.map_values(|d: PciDevice| d@)
}

/// The PCI bus and ASPM picture.
#[derive(Debug, Clone)]
pub struct PciInfo {
    pub devices: Vec<PciDevice>,
    pub aspm_policy: Option<String>,
    pub aspm_policies_available: Vec<String>,
}

/// The device one PCI address yields, read from its sysfs directory.
pub open spec fn spec_pci_device(fsv: SysfsRoot, addr: Seq<char>) -> PciDeviceView {
    let base = "sys/bus/pci/devices/"@ + addr;
    PciDeviceView {
        address: addr,
        class: fsv.trimmed_at(base + "/class"@),
        vendor: fsv.trimmed_at(base + "/vendor"@),
        device: fsv.trimmed_at(base + "/device"@),
        driver: match crate::fs::link_from(fsv.links@, 0, fsv.full(base + "/driver"@)) {
            Some(t) => Some(crate::fs::spec_basename(t)),
            None => None,
        },
        runtime_pm: fsv.trimmed_at(base + "/power/control"@),
        runtime_status: fsv.trimmed_at(base + "/power/runtime_status"@),
    }
}

/// Every listed address turned into a device, in listing order.
pub open spec fn pci_devices_from(
    fsv: SysfsRoot,
    addrs: Seq<Seq<char>>,
    i: int,
    acc: Seq<PciDeviceView>,
) -> Seq<PciDeviceView>
    decreases addrs.len() - i,
{
    if i < 0 || i >= addrs.len() {
        acc
    } else {
        pci_devices_from(fsv, addrs, i + 1, acc.push(spec_pci_device(fsv, addrs[i])))
    }
}

/// The active ASPM policy: the bracket-marked word of the policy file.
pub open spec fn spec_aspm_active(value: Seq<char>) -> Option<Seq<char>> {
    crate::detect::platform::bracketed_from(text::split_ws(value), 0, None)
}

/// The policy words with their brackets stripped.
pub open spec fn aspm_choices_from(toks: Seq<Seq<char>>, i: int, acc: Seq<Seq<char>>) -> Seq<
    Seq<char>,
>
    decreases toks.len() - i,
{
    if i < 0 || i >= toks.len() {
        acc
    } else if toks[i].len() >= 2 && toks[i][0] == '[' && toks[i].last() == ']' {
        aspm_choices_from(toks, i + 1, acc.push(toks[i].subrange(1, toks[i].len() - 1)))
    } else {
        aspm_choices_from(toks, i + 1, acc.push(toks[i]))
    }
}

impl PciInfo {
    /// Reads the ASPM policy file and enumerates the PCI devices.
    pub fn detect(fs: &SysfsRoot) -> (r: Self)
        ensures
            ({
                match fs.trimmed_at("sys/module/pcie_aspm/parameters/policy"@) {
                    Some(v) => opt_view(r.aspm_policy) == spec_aspm_active(v) && text::views_of(
                        r.aspm_policies_available@,
                    ) == aspm_choices_from(text::split_ws(v), 0, Seq::empty()),
                    None => r.aspm_policy is None && r.aspm_policies_available@.len() == 0,
                }
            }),
            devices_view(r.devices@) == if fs.dir_present(fs.full("sys/bus/pci/devices"@)) {
                pci_devices_from(*fs, fs.listing(fs.full("sys/bus/pci/devices"@)), 0, Seq::empty())
            } else {
                Seq::empty()
            },
    {
        let mut aspm_policy: Option<String> = None;
        let mut aspm_policies_available: Vec<String> = Vec::new();
        assert(text::views_of(aspm_policies_available@) =~= Seq::<Seq<char>>::empty());
        match fs.read_opt("sys/module/pcie_aspm/parameters/policy") {
            Some(policy_str) => {
                let toks = text::split_whitespace(policy_str.as_str());
                let ghost tv = text::split_ws(policy_str@);
                let mut i: usize = 0;
                while i < toks.len()
                    invariant
                        i <= toks@.len(),
                        tv == text::views_of(toks@),
                        crate::detect::platform::bracketed_from(tv, 0, None)
                            == crate::detect::platform::bracketed_from(
                            tv,
                            i as int,
                            opt_view(aspm_policy),
                        ),
                        aspm_choices_from(tv, 0, Seq::empty()) == aspm_choices_from(
                            tv,
                            i as int,
                            text::views_of(aspm_policies_available@),
                        ),
                    decreases toks@.len() - i,
                {
                    let t = toks[i].as_str();
                    let n = t.unicode_len();
                    let ghost before = text::views_of(aspm_policies_available@);
                    if n >= 2 && t.get_char(0) == '[' && t.get_char(n - 1) == ']' {
                        let inner = text::substring_of(t, 1, n - 1);
                        aspm_policy = Some(inner.clone());
                        aspm_policies_available.push(inner);
                    } else {
                        aspm_policies_available.push(toks[i].clone());
                    }
                    assert(text::views_of(aspm_policies_available@) =~= before.push(
                        aspm_policies_available@.last()@,
                    ));
                    i = i + 1;
                }
            },
            None => {},
        }
        let mut devices: Vec<PciDevice> = Vec::new();
        assert(devices_view(devices@) =~= Seq::<PciDeviceView>::empty());
        match fs.list_dir("sys/bus/pci/devices") {
            Ok(addrs) => {
                let ghost av = text::views_of(addrs@);
                let mut i: usize = 0;
                while i < addrs.len()
                    invariant
                        i <= addrs@.len(),
                        av == text::views_of(addrs@),
                        av == fs.listing(fs.full("sys/bus/pci/devices"@)),
                        pci_devices_from(*fs, av, 0, Seq::empty()) == pci_devices_from(
                            *fs,
                            av,
                            i as int,
                            devices_view(devices@),
                        ),
                    decreases addrs@.len() - i,
                {
                    let addr = &addrs[i];
                    let base = text::concat("sys/bus/pci/devices/", addr.as_str());
                    assert(base@ =~= "sys/bus/pci/devices/"@ + av[i as int]);
                    let dev = PciDevice {
                        address: addr.clone(),
                        class: fs.read_opt(text::concat(base.as_str(), "/class").as_str()),
                        vendor: fs.read_opt(text::concat(base.as_str(), "/vendor").as_str()),
                        device: fs.read_opt(text::concat(base.as_str(), "/device").as_str()),
                        driver: fs.link_name(text::concat(base.as_str(), "/driver").as_str()),
                        runtime_pm: fs.read_opt(
                            text::concat(base.as_str(), "/power/control").as_str(),
                        ),
                        runtime_status: fs.read_opt(
                            text::concat(base.as_str(), "/power/runtime_status").as_str(),
                        ),
                    };
                    let ghost before = devices_view(devices@);
                    proof {
                        assert(dev@ == spec_pci_device(*fs, av[i as int]));
                    }
                    devices.push(dev);
                    assert(devices_view(devices@) =~= before.push(devices@.last()@));
                    i = i + 1;
                }
            },
            Err(_) => {},
        }
        PciInfo { devices, aspm_policy, aspm_policies_available }
    }

    /// The devices whose runtime power management is not `auto`.
    pub fn devices_without_runtime_pm(&self) -> (r: Vec<PciDevice>)
        ensures
            devices_view(r@) == devices_view(self.devices@).filter(
                |d: PciDeviceView| d.runtime_pm != Some("auto"@),
            ),
    {
        let ghost dv = devices_view(self.devices@);
        let mut out: Vec<PciDevice> = Vec::new();
        proof {
            reveal_with_fuel(Seq::filter, 2);
            assert(dv.take(0) =~= Seq::<PciDeviceView>::empty());
            assert(devices_view(out@) =~= dv.take(0).filter(
                |d: PciDeviceView| d.runtime_pm != Some("auto"@),
            ));
        }
        let mut i: usize = 0;
        while i < self.devices.len()
            invariant
                i <= self.devices@.len(),
                dv == devices_view(self.devices@),
                devices_view(out@) == dv.take(i as int).filter(
                    |d: PciDeviceView| d.runtime_pm != Some("auto"@),
                ),
            decreases self.devices@.len() - i,
        {
            let keep = !text::opt_is(&self.devices[i].runtime_pm, "auto");
            proof {
                reveal_with_fuel(Seq::filter, 2);
                assert(dv.take(i + 1).drop_last() =~= dv.take(i as int));
                assert(dv.take(i + 1).last() == dv[i as int]);
            }
            if keep {
                let ghost before = devices_view(out@);
                out.push(self.devices[i].duplicate());
                assert(devices_view(out@) =~= before.push(out@.last()@));
            }
            i = i + 1;
        }
        proof {
            assert(dv.take(dv.len() as int) =~= dv);
        }
        out
    }
}

impl PciDevice {
    /// A value-equal copy.
    pub fn duplicate(&self) -> (r: Self)
        ensures
            r@ == self@,
    {
        PciDevice {
            address: self.address.clone(),
            class: clone_opt(&self.class),
            vendor: clone_opt(&self.vendor),
            device: clone_opt(&self.device),
            driver: clone_opt(&self.driver),
            runtime_pm: clone_opt(&self.runtime_pm),
            runtime_status: clone_opt(&self.runtime_status),
        }
    }
}

/// A value-equal copy of an optional string.
pub fn clone_opt(o: &Option<String>) -> (r: Option<String>)
    ensures
        r == *o,
{
    match o {
        Some(s) => Some(s.clone()),
        None => None,
    }
}

} // verus!
