//! GPU detection: the first DRM card, its vendor and driver, and AMD
//! power-management state.

use vstd::prelude::*;
use crate::detect::dmi::opt_view;
use crate::fs::SysfsRoot;
use crate::text;

verus! {

/// The primary GPU's identity and power state.
#[derive(Debug, Clone)]
pub struct GpuInfo {
    pub vendor: Option<String>,
    pub driver: Option<String>,
    pub card_path: Option<String>,
    pub dpm_level: Option<String>,
    pub abm_level: Option<u32>,
    pub has_abm: bool,
}

/// Whether a DRM entry names a card rather than a connector.
pub open spec fn is_card_entry(n: Seq<char>) -> bool {
    text::has_prefix(n, "card"@) && text::find_char_from(n, 0, '-') == n.len()
}

/// Index of the first card entry whose device directory exists.
pub open spec fn first_card_from(fsv: SysfsRoot, names: Seq<Seq<char>>, i: int) -> int
    decreases names.len() - i,
{
    if i < 0 || i >= names.len() {
        names.len() as int
    } else if is_card_entry(names[i]) && fsv.present(
        fsv.full("sys/class/drm/"@ + names[i] + "/device"@),
    ) {
        i
    } else {
        first_card_from(fsv, names, i + 1)
    }
}

impl GpuInfo {
    /// Whether the vendor id or driver name marks an AMD GPU.
    pub open spec fn spec_is_amd(&self) -> bool {
        (self.vendor is Some && self.vendor->0@ == "0x1002"@) || (self.driver is Some
            && self.driver->0@ == "amdgpu"@)
    }

    /// Whether the vendor id or driver name marks an AMD GPU.
    pub fn is_amd(&self) -> (r: bool)
        ensures
            r == self.spec_is_amd(),
    {
        text::opt_is(&self.vendor, "0x1002") || text::opt_is(&self.driver, "amdgpu")
    }

    /// Finds the first DRM card, reads its vendor and driver, and, for
    /// AMD parts, the DPM level and the ABM level from the kernel command
    /// line or the module parameter.
    pub fn detect(fs: &SysfsRoot) -> (r: Self)
        ensures
            ({
                let full = fs.full("sys/class/drm"@);
                if !fs.dir_present(full) || first_card_from(*fs, fs.listing(full), 0)
                    == fs.listing(full).len() {
                    r.vendor is None && r.driver is None && r.card_path is None
                } else {
                    let names = fs.listing(full);
                    let m = first_card_from(*fs, names, 0);
                    let card = "sys/class/drm/"@ + names[m] + "/device"@;
                    &&& r.card_path is Some
                    &&& r.card_path->0@ == card
                    &&& opt_view(r.vendor) == fs.trimmed_at(card + "/vendor"@)
                    &&& match crate::fs::link_from(fs.links@, 0, fs.full(card + "/driver"@)) {
                        Some(t) => r.driver is Some && r.driver->0@ == crate::fs::spec_basename(
                            t,
                        ),
                        None => r.driver is None,
                    }
                }
            }),
            ({
                if !r.spec_is_amd() {
                    r.dpm_level is None && r.abm_level is None && !r.has_abm
                } else {
                    &&& opt_view(r.dpm_level) == match r.card_path {
                        Some(card) => fs.trimmed_at(
                            card@ + "/power_dpm_force_performance_level"@,
                        ),
                        None => None,
                    }
                    &&& ({
                        let from_cmdline = cmdline_abm(fs.trimmed_at("proc/cmdline"@));
                        let from_module = fs.trimmed_at("sys/module/amdgpu/parameters/abmlevel"@);
                        if from_cmdline is Some {
                            r.has_abm && r.abm_level == text::parse_u32_seq(from_cmdline->0)
                        } else if from_module is Some {
                            r.has_abm && r.abm_level == text::parse_u32_seq(from_module->0)
                        } else {
                            !r.has_abm && r.abm_level is None
                        }
                    })
                }
            }),
    {
        let mut info = GpuInfo {
            vendor: None,
            driver: None,
            card_path: None,
            dpm_level: None,
            abm_level: None,
            has_abm: false,
        };
        match fs.list_dir("sys/class/drm") {
            Ok(names) => {
                let ghost nv = text::views_of(names@);
                let n = names.len();
                let mut i: usize = 0;
                while i < n
                    invariant
                        i <= n,
                        n == names@.len(),
                        nv == text::views_of(names@),
                        nv == fs.listing(fs.full("sys/class/drm"@)),
                        fs.dir_present(fs.full("sys/class/drm"@)),
                        first_card_from(*fs, nv, 0) == first_card_from(*fs, nv, i as int),
                    ensures
                        i <= n,
                        n == names@.len(),
                        nv == text::views_of(names@),
                        i < n ==> first_card_from(*fs, nv, 0) == i,
                        i == n ==> first_card_from(*fs, nv, 0) == n as int,
                    decreases n - i,
                {
                    let name = &names[i];
                    let no_dash = {
                        let d = text::find_char(name.as_str(), '-');
                        d == name.as_str().unicode_len()
                    };
                    if text::starts_with(name.as_str(), "card") && no_dash {
                        let card = {
                            let mut c = text::concat("sys/class/drm/", name.as_str());
                            c.append("/device");
                            c
                        };
                        assert(card@ =~= "sys/class/drm/"@ + nv[i as int] + "/device"@);
                        if fs.path_exists(card.as_str()) {
                            proof {
                                assert(is_card_entry(nv[i as int]));
                                assert(first_card_from(*fs, nv, i as int) == i);
                            }
                            break;
                        }
                    }
                    i = i + 1;
                }
                if i < n {
                    let name = &names[i];
                    let card = {
                        let mut c = text::concat("sys/class/drm/", name.as_str());
                        c.append("/device");
                        c
                    };
                    assert(card@ =~= "sys/class/drm/"@ + nv[i as int] + "/device"@);
                    let vendor = fs.read_opt(text::concat(card.as_str(), "/vendor").as_str());
                    let driver = fs.link_name(text::concat(card.as_str(), "/driver").as_str());
                    info.vendor = vendor;
                    info.driver = driver;
                    info.card_path = Some(card);
                }
            },
            Err(_) => {},
        }
        if info.is_amd() {
            match &info.card_path {
                Some(card) => {
                    info.dpm_level = fs.read_opt(
                        text::concat(card.as_str(), "/power_dpm_force_performance_level")
                            .as_str(),
                    );
                },
                None => {},
            }
            let from_cmdline = cmdline_abm_value(fs);
            match from_cmdline {
                Some(v) => {
                    info.abm_level = text::parse_u32(v.as_str());
                    info.has_abm = true;
                },
                None => {
                    match fs.read_opt("sys/module/amdgpu/parameters/abmlevel") {
                        Some(v) => {
                            info.abm_level = text::parse_u32(v.as_str());
                            info.has_abm = true;
                        },
                        None => {},
                    }
                },
            }
        }
        info
    }
}

/// The value of the last `amdgpu.abmlevel=` token on the kernel command
/// line, scanned left to right.
pub open spec fn cmdline_abm_from(toks: Seq<Seq<char>>, i: int, cur: Option<Seq<char>>) -> Option<
    Seq<char>,
>
    decreases toks.len() - i,
{
    if i < 0 || i >= toks.len() {
        cur
    } else if text::has_prefix(toks[i], "amdgpu.abmlevel="@) {
        cmdline_abm_from(
            toks,
            i + 1,
            Some(toks[i].subrange("amdgpu.abmlevel="@.len() as int, toks[i].len() as int)),
        )
    } else {
        cmdline_abm_from(toks, i + 1, cur)
    }
}

/// The ABM level on the kernel command line, if any.
pub open spec fn cmdline_abm(cmdline: Option<Seq<char>>) -> Option<Seq<char>> {
    match cmdline {
        Some(c) => cmdline_abm_from(text::split_ws(c), 0, None),
        None => None,
    }
}

/// Scans the kernel command line for the ABM level.
fn cmdline_abm_value(fs: &SysfsRoot) -> (r: Option<String>)
    ensures
        match r {
            Some(v) => cmdline_abm(fs.trimmed_at("proc/cmdline"@)) == Some(v@),
            None => cmdline_abm(fs.trimmed_at("proc/cmdline"@)) is None,
        },
{
    let cmdline = match fs.read_opt("proc/cmdline") {
        Some(c) => c,
        None => {
            return None;
        },
    };
    let toks = text::split_whitespace(cmdline.as_str());
    let ghost tv = text::split_ws(cmdline@);
    let mut cur: Option<String> = None;
    let mut i: usize = 0;
    while i < toks.len()
        invariant
            i <= toks@.len(),
            tv == text::views_of(toks@),
            cmdline_abm_from(tv, 0, None) == cmdline_abm_from(
                tv,
                i as int,
                match cur {
                    Some(v) => Some(v@),
                    None => None,
                },
            ),
        decreases toks@.len() - i,
    {
        if text::starts_with(toks[i].as_str(), "amdgpu.abmlevel=") {
            let plen = "amdgpu.abmlevel=".unicode_len();
            let n = toks[i].as_str().unicode_len();
            cur = Some(text::substring_of(toks[i].as_str(), plen, n));
        }
        i = i + 1;
    }
    cur
}

} // verus!
