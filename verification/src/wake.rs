//! ACPI wake sources with USB-topology awareness: which controllers have
//! devices attached, and which the auto-scan may toggle.

use vstd::prelude::*;
use crate::detect::dmi::opt_view;
use crate::fs::SysfsRoot;
use crate::text;

verus! {

/// One wake-capable USB host controller (or other wake source).
#[derive(Debug, Clone)]
pub struct WakeController {
    pub name: String,
    pub pci_address: Option<String>,
    pub enabled: bool,
    pub has_devices: bool,
    pub device_descriptions: Vec<String>,
}

/// View of a [`WakeController`], without the display-only descriptions.
pub struct WakeControllerView {
    pub name: Seq<char>,
    pub pci_address: Option<Seq<char>>,
    pub enabled: bool,
    pub has_devices: bool,
}

impl View for WakeController {
    type V = WakeControllerView;

    open spec fn view(&self) -> WakeControllerView {
        WakeControllerView {
            name: self.name@,
            pci_address: opt_view(self.pci_address),
            enabled: self.enabled,
            has_devices: self.has_devices,
        }
    }
}

/// Views of a vector of controllers.
pub open spec fn ctrls_view(v: Seq<WakeController>) -> Seq<WakeControllerView> {
    v.map_values(|c: WakeController| c@)
}

/// USB host controllers use the `XHC*` naming convention in ACPI; other
/// wake sources (`LID0`, `PBTN`, `GPP6`, `NHI0`, ...) are not USB
/// controllers.
pub open spec fn spec_is_usb_wakeup(name: Seq<char>) -> bool {
    text::has_prefix(name, "XHC"@)
}

/// Executable mirror of [`spec_is_usb_wakeup`].
pub fn is_usb_wakeup_source(name: &str) -> (r: bool)
    ensures
        r == spec_is_usb_wakeup(name@),
{
    text::starts_with(name, "XHC")
}

/// Whether the auto-scan disables this controller's wake capability:
/// a USB controller, enabled, without devices, and never `XHC0` — the
/// internal keyboard and trackpad hang off that one.
pub open spec fn spec_should_disable(c: WakeControllerView) -> bool {
    spec_is_usb_wakeup(c.name) && !c.has_devices && c.enabled && c.name != "XHC0"@
}

/// Executable mirror of [`spec_should_disable`].
pub fn should_disable_in_scan(ctrl: &WakeController) -> (r: bool)
    ensures
        r == spec_should_disable(ctrl@),
{
    is_usb_wakeup_source(ctrl.name.as_str()) && !ctrl.has_devices && ctrl.enabled
        && !text::str_eq(ctrl.name.as_str(), "XHC0")
}

/// Whether the auto-scan enables this controller's wake capability: a USB
/// controller with devices attached whose wake is off.
pub open spec fn spec_should_enable(c: WakeControllerView) -> bool {
    spec_is_usb_wakeup(c.name) && c.has_devices && !c.enabled
}

/// Executable mirror of [`spec_should_enable`].
pub fn should_enable_in_scan(ctrl: &WakeController) -> (r: bool)
    ensures
        r == spec_should_enable(ctrl@),
{
    is_usb_wakeup_source(ctrl.name.as_str()) && ctrl.has_devices && !ctrl.enabled
}

/// What a USB entry resolves to through its symlink.
pub open spec fn canon_of(fsv: SysfsRoot, rel: Seq<char>) -> Seq<char> {
    match crate::fs::link_from(fsv.links@, 0, fsv.full(rel)) {
        Some(t) => t,
        None => fsv.full(rel),
    }
}

/// Whether some entry at or after `j` is a device on the bus: named
/// `<bus>-...` and holding no `:` (which would mark an interface node).
pub open spec fn bus_has_device_from(devs: Seq<Seq<char>>, bus: Seq<char>, j: int) -> bool
    decreases devs.len() - j,
{
    if j < 0 || j >= devs.len() {
        false
    } else if text::has_prefix(devs[j], bus + seq!['-']) && text::find_char_from(
        devs[j],
        0,
        ':',
    ) == devs[j].len() {
        true
    } else {
        bus_has_device_from(devs, bus, j + 1)
    }
}

/// Whether some root hub at or after `i` resolves to the controller's PCI
/// address and has a device on its bus.
pub open spec fn controller_devices_from(
    fsv: SysfsRoot,
    devs: Seq<Seq<char>>,
    pci: Seq<char>,
    i: int,
) -> bool
    decreases devs.len() - i,
{
    if i < 0 || i >= devs.len() {
        false
    } else if text::has_prefix(devs[i], "usb"@) && text::contains_seq(
        canon_of(fsv, "sys/bus/usb/devices/"@ + devs[i]),
        pci,
    ) && bus_has_device_from(devs, devs[i].subrange(3, devs[i].len() as int), 0) {
        true
    } else {
        controller_devices_from(fsv, devs, pci, i + 1)
    }
}

/// Whether a device entry on the bus exists.
fn bus_has_device(devs: &Vec<String>, bus: &str) -> (r: bool)
    ensures
        r == bus_has_device_from(text::views_of(devs@), bus@, 0),
{
    let ghost dv = text::views_of(devs@);
    let prefix = {
        let mut p = bus.to_owned();
        text::push_char(&mut p, '-');
        p
    };
    assert(prefix@ =~= bus@ + seq!['-']);
    let mut j: usize = 0;
    while j < devs.len()
        invariant
            j <= devs@.len(),
            dv == text::views_of(devs@),
            prefix@ == bus@ + seq!['-'],
            bus_has_device_from(dv, bus@, 0) == bus_has_device_from(dv, bus@, j as int),
        decreases devs@.len() - j,
    {
        let d = devs[j].as_str();
        if text::starts_with(d, prefix.as_str()) && text::find_char(d, ':')
            == d.unicode_len() {
            return true;
        }
        j = j + 1;
    }
    false
}

/// Whether the controller at the PCI address has USB devices attached,
/// traced through the root hubs' symlinks.
pub fn controller_has_devices_at(fs: &SysfsRoot, usb_devices: &Vec<String>, pci: &str) -> (r:
    bool)
    ensures
        r == controller_devices_from(*fs, text::views_of(usb_devices@), pci@, 0),
{
    let ghost dv = text::views_of(usb_devices@);
    let mut i: usize = 0;
    while i < usb_devices.len()
        invariant
            i <= usb_devices@.len(),
            dv == text::views_of(usb_devices@),
            controller_devices_from(*fs, dv, pci@, 0) == controller_devices_from(
                *fs,
                dv,
                pci@,
                i as int,
            ),
        decreases usb_devices@.len() - i,
    {
        let d = usb_devices[i].as_str();
        if text::starts_with(d, "usb") {
            let rel = text::concat("sys/bus/usb/devices/", d);
            assert(rel@ =~= "sys/bus/usb/devices/"@ + dv[i as int]);
            let canonical = fs.canonicalize(rel.as_str());
            if text::contains_sub(canonical.as_str(), pci) {
                let n = d.unicode_len();
                let plen = "usb".unicode_len();
                proof {
                    reveal_strlit("usb");
                    assert("usb"@.len() == 3);
                }
                let bus = text::substring_of(d, plen, n);
                assert(bus@ =~= dv[i as int].subrange(3, dv[i as int].len() as int));
                if bus_has_device(usb_devices, bus.as_str()) {
                    return true;
                }
            }
        }
        i = i + 1;
    }
    false
}

/// The `pci:`-tagged token of a wakeup line, with the tag stripped.
pub open spec fn pci_token_from(parts: Seq<Seq<char>>, i: int) -> Option<Seq<char>>
    decreases parts.len() - i,
{
    if i < 0 || i >= parts.len() {
        None
    } else if text::has_prefix(parts[i], "pci:"@) {
        Some(parts[i].subrange("pci:"@.len() as int, parts[i].len() as int))
    } else {
        pci_token_from(parts, i + 1)
    }
}

/// Finds the `pci:` token among a line's fields.
fn pci_token(parts: &Vec<String>) -> (r: Option<String>)
    ensures
        match r {
            Some(v) => pci_token_from(text::views_of(parts@), 0) == Some(v@),
            None => pci_token_from(text::views_of(parts@), 0) is None,
        },
{
    let ghost pv = text::views_of(parts@);
    let mut i: usize = 0;
    while i < parts.len()
        invariant
            i <= parts@.len(),
            pv == text::views_of(parts@),
            pci_token_from(pv, 0) == pci_token_from(pv, i as int),
        decreases parts@.len() - i,
    {
        if text::starts_with(parts[i].as_str(), "pci:") {
            let plen = "pci:".unicode_len();
            let n = parts[i].as_str().unicode_len();
            return Some(text::substring_of(parts[i].as_str(), plen, n));
        }
        i = i + 1;
    }
    None
}

/// The controller one wakeup line describes, when it has at least three
/// fields.
pub open spec fn spec_wake_line(fsv: SysfsRoot, devs: Seq<Seq<char>>, l: Seq<char>) -> Option<
    WakeControllerView,
> {
    let parts = text::split_ws(l);
    if parts.len() < 3 {
        None
    } else {
        let pci = pci_token_from(parts, 0);
        let has = if spec_is_usb_wakeup(parts[0]) {
            match pci {
                Some(addr) => controller_devices_from(fsv, devs, addr, 0),
                None => false,
            }
        } else {
            false
        };
        Some(
            WakeControllerView {
                name: parts[0],
                pci_address: pci,
                enabled: text::contains_seq(l, "*enabled"@),
                has_devices: has,
            },
        )
    }
}

/// Left fold of [`spec_wake_line`] over the wakeup file's lines.
pub open spec fn wake_ctrls_from(
    fsv: SysfsRoot,
    devs: Seq<Seq<char>>,
    lines: Seq<Seq<char>>,
    i: int,
    acc: Seq<WakeControllerView>,
) -> Seq<WakeControllerView>
    decreases lines.len() - i,
{
    if i < 0 || i >= lines.len() {
        acc
    } else {
        match spec_wake_line(fsv, devs, lines[i]) {
            Some(c) => wake_ctrls_from(fsv, devs, lines, i + 1, acc.push(c)),
            None => wake_ctrls_from(fsv, devs, lines, i + 1, acc),
        }
    }
}

/// The USB device names the scan walks: the listing of the USB device
/// directory, or nothing when it cannot be listed.
pub open spec fn usb_listing(fsv: SysfsRoot) -> Seq<Seq<char>> {
    if fsv.dir_present(fsv.full("sys/bus/usb/devices"@)) {
        fsv.listing(fsv.full("sys/bus/usb/devices"@))
    } else {
        Seq::empty()
    }
}

/// Scans `/proc/acpi/wakeup` and the USB topology into one controller
/// record per wakeup line. Fails exactly when the wakeup file is absent.
pub fn scan_controllers(fs: &SysfsRoot) -> (r: Result<Vec<WakeController>, crate::error::Error>)
    ensures
        match r {
            Ok(v) => fs.trimmed_at("proc/acpi/wakeup"@) is Some && ctrls_view(v@)
                == wake_ctrls_from(
                *fs,
                usb_listing(*fs),
                text::split_lines_seq(fs.trimmed_at("proc/acpi/wakeup"@)->0),
                0,
                Seq::empty(),
            ),
            Err(e) => fs.trimmed_at("proc/acpi/wakeup"@) is None && e is SysfsRead,
        },
{
    let wakeup_content = fs.read("proc/acpi/wakeup")?;
    let usb_devices: Vec<String> = match fs.list_dir("sys/bus/usb/devices") {
        Ok(d) => d,
        Err(_) => Vec::new(),
    };
    let ghost devs = usb_listing(*fs);
    proof {
        if !fs.dir_present(fs.full("sys/bus/usb/devices"@)) {
            assert(text::views_of(usb_devices@) =~= Seq::<Seq<char>>::empty());
        }
    }
    let lines = text::split_lines(wakeup_content.as_str());
    let ghost lv = text::split_lines_seq(wakeup_content@);
    let mut out: Vec<WakeController> = Vec::new();
    assert(ctrls_view(out@) =~= Seq::<WakeControllerView>::empty());
    let mut i: usize = 0;
    while i < lines.len()
        invariant
            i <= lines@.len(),
            lv == text::views_of(lines@),
            devs == text::views_of(usb_devices@),
            wake_ctrls_from(*fs, devs, lv, 0, Seq::empty()) == wake_ctrls_from(
                *fs,
                devs,
                lv,
                i as int,
                ctrls_view(out@),
            ),
        decreases lines@.len() - i,
    {
        let line = lines[i].as_str();
        let parts = text::split_whitespace(line);
        if parts.len() >= 3 {
            let name = parts[0].clone();
            let enabled = text::contains_sub(line, "*enabled");
            let pci_address = pci_token(&parts);
            let is_usb = is_usb_wakeup_source(name.as_str());
            let has_devices: bool = if is_usb {
                match &pci_address {
                    Some(addr) => controller_has_devices_at(fs, &usb_devices, addr.as_str()),
                    None => false,
                }
            } else {
                false
            };
            let ghost before = ctrls_view(out@);
            out.push(
                WakeController {
                    name,
                    pci_address,
                    enabled,
                    has_devices,
                    device_descriptions: Vec::new(),
                },
            );
            assert(ctrls_view(out@) =~= before.push(out@.last()@));
        }
        i = i + 1;
    }
    Ok(out)
}

} // verus!
