//! CPU identity, frequency-scaling and boost state.

use vstd::prelude::*;
use crate::detect::dmi::opt_view;
use crate::fs::SysfsRoot;
use crate::text;

verus! {

/// CPU identity and power-relevant tuning state.
#[derive(Debug, Clone)]
pub struct CpuInfo {
    pub model_name: Option<String>,
    pub vendor: Option<String>,
    pub family: Option<u32>,
    pub model: Option<u32>,
    pub scaling_driver: Option<String>,
    pub governor: Option<String>,
    pub epp: Option<String>,
    pub epp_available: Vec<String>,
    pub amd_pstate_mode: Option<String>,
    pub online_cpus: u32,
    pub has_boost: bool,
    pub boost_enabled: bool,
}

/// The four identity fields scanned out of `/proc/cpuinfo`.
pub struct CpuIdent {
    pub model_name: Option<Seq<char>>,
    pub vendor: Option<Seq<char>>,
    pub family: Option<u32>,
    pub model: Option<u32>,
}

/// One `key : value` line folded into the identity being scanned: the
/// first occurrence of each key wins.
pub open spec fn cpuinfo_scan(lines: Seq<Seq<char>>, i: int, acc: CpuIdent) -> CpuIdent
    decreases lines.len() - i,
{
    if i < 0 || i >= lines.len() {
        acc
    } else {
        let l = lines[i];
        let cp = text::find_char_from(l, 0, ':');
        if cp == l.len() {
            cpuinfo_scan(lines, i + 1, acc)
        } else {
            let key = text::trim_seq(l.subrange(0, cp));
            let value = text::trim_seq(l.subrange(cp + 1, l.len() as int));
            let acc2 = if key == "model name"@ && acc.model_name is None {
                CpuIdent { model_name: Some(value), ..acc }
            } else if key == "vendor_id"@ && acc.vendor is None {
                CpuIdent { vendor: Some(value), ..acc }
            } else if key == "cpu family"@ && acc.family is None {
                CpuIdent { family: text::parse_u32_seq(value), ..acc }
            } else if key == "model"@ && acc.model is None {
                CpuIdent { model: text::parse_u32_seq(value), ..acc }
            } else {
                acc
            };
            cpuinfo_scan(lines, i + 1, acc2)
        }
    }
}

/// The identity read from the whole (trimmed) `/proc/cpuinfo` content.
pub open spec fn cpuinfo_ident(content: Option<Seq<char>>) -> CpuIdent {
    let empty = CpuIdent { model_name: None, vendor: None, family: None, model: None };
    match content {
        Some(c) => cpuinfo_scan(text::split_lines_seq(c), 0, empty),
        None => empty,
    }
}

/// Whether a directory-entry name is `cpu` followed by digits only.
pub open spec fn is_cpu_entry(n: Seq<char>) -> bool {
    text::has_prefix(n, "cpu"@) && forall|j: int|
        "cpu"@.len() <= j < n.len() ==> text::is_digit_char(#[trigger] n[j])
}

/// How many listed names are per-CPU entries.
pub open spec fn count_cpus_from(names: Seq<Seq<char>>, i: int, acc: int) -> int
    decreases names.len() - i,
{
    if i < 0 || i >= names.len() {
        acc
    } else if is_cpu_entry(names[i]) {
        count_cpus_from(names, i + 1, acc + 1)
    } else {
        count_cpus_from(names, i + 1, acc)
    }
}

/// Whether `n` is `cpu` followed by digits only.
pub fn is_cpu_name(n: &str) -> (r: bool)
    ensures
        r == is_cpu_entry(n@),
{
    if !text::starts_with(n, "cpu") {
        return false;
    }
    let len = n.unicode_len();
    let plen = "cpu".unicode_len();
    let chars = text::chars_of(n);
    let mut j: usize = plen;
    while j < len
        invariant
            plen <= j <= len,
            len == chars@.len(),
            chars@ == n@,
            plen == "cpu"@.len(),
            forall|q: int| plen <= q < j ==> text::is_digit_char(#[trigger] n@[q]),
        decreases len - j,
    {
        let c = chars[j];
        if c < '0' || c > '9' {
            return false;
        }
        j = j + 1;
    }
    true
}

impl CpuInfo {
    /// Reads identity from `/proc/cpuinfo` and tuning state from the
    /// cpufreq tree.
    pub fn detect(fs: &SysfsRoot) -> (r: Self)
        ensures
            ({
                let ident = cpuinfo_ident(fs.trimmed_at("proc/cpuinfo"@));
                &&& opt_view(r.model_name) == ident.model_name
                &&& opt_view(r.vendor) == ident.vendor
                &&& r.family == ident.family
                &&& r.model == ident.model
            }),
            opt_view(r.scaling_driver) == fs.trimmed_at(
                "sys/devices/system/cpu/cpu0/cpufreq/scaling_driver"@,
            ),
            opt_view(r.governor) == fs.trimmed_at(
                "sys/devices/system/cpu/cpu0/cpufreq/scaling_governor"@,
            ),
            opt_view(r.epp) == fs.trimmed_at(
                "sys/devices/system/cpu/cpu0/cpufreq/energy_performance_preference"@,
            ),
            text::views_of(r.epp_available@) == match fs.trimmed_at(
                "sys/devices/system/cpu/cpu0/cpufreq/energy_performance_available_preferences"@,
            ) {
                Some(avail) => text::split_ws(avail),
                None => Seq::empty(),
            },
            opt_view(r.amd_pstate_mode) == fs.trimmed_at(
                "sys/devices/system/cpu/amd_pstate/status"@,
            ),
            r.online_cpus as int == if fs.dir_present(fs.full("sys/devices/system/cpu"@)) {
                let c = count_cpus_from(fs.listing(fs.full("sys/devices/system/cpu"@)), 0, 0);
                if c <= u32::MAX {
                    c
                } else {
                    u32::MAX as int
                }
            } else {
                0
            },
            ({
                let boost = fs.trimmed_at("sys/devices/system/cpu/cpufreq/boost"@);
                &&& r.has_boost == (boost is Some)
                &&& r.boost_enabled == (boost == Some("1"@))
            }),
    {
        let ident_lines: Vec<String> = match fs.read_opt("proc/cpuinfo") {
            Some(c) => text::split_lines(c.as_str()),
            None => Vec::new(),
        };
        let mut model_name: Option<String> = None;
        let mut vendor: Option<String> = None;
        let mut family: Option<u32> = None;
        let mut model: Option<u32> = None;
        let ghost lv = text::views_of(ident_lines@);
        let ghost target = cpuinfo_ident(fs.trimmed_at("proc/cpuinfo"@));
        proof {
            if fs.trimmed_at("proc/cpuinfo"@) is None {
                assert(lv =~= Seq::<Seq<char>>::empty());
            }
        }
        let mut i: usize = 0;
        while i < ident_lines.len()
            invariant
                i <= ident_lines@.len(),
                lv == text::views_of(ident_lines@),
                target == cpuinfo_scan(
                    lv,
                    i as int,
                    CpuIdent {
                        model_name: opt_view(model_name),
                        vendor: opt_view(vendor),
                        family: family,
                        model: model,
                    },
                ),
            decreases ident_lines@.len() - i,
        {
            let line = &ident_lines[i];
            let n = line.as_str().unicode_len();
            let cp = text::find_char(line.as_str(), ':');
            if cp < n {
                let key = text::trim(text::substring_of(line.as_str(), 0, cp).as_str());
                let value = text::trim(text::substring_of(line.as_str(), cp + 1, n).as_str());
                if text::str_eq(key.as_str(), "model name") && model_name.is_none() {
                    model_name = Some(value);
                } else if text::str_eq(key.as_str(), "vendor_id") && vendor.is_none() {
                    vendor = Some(value);
                } else if text::str_eq(key.as_str(), "cpu family") && family.is_none() {
                    family = text::parse_u32(value.as_str());
                } else if text::str_eq(key.as_str(), "model") && model.is_none() {
                    model = text::parse_u32(value.as_str());
                }
            }
            i = i + 1;
        }
        let epp_available: Vec<String> = match fs.read_opt(
            "sys/devices/system/cpu/cpu0/cpufreq/energy_performance_available_preferences",
        ) {
            Some(avail) => text::split_whitespace(avail.as_str()),
            None => Vec::new(),
        };
        proof {
            if fs.trimmed_at(
                "sys/devices/system/cpu/cpu0/cpufreq/energy_performance_available_preferences"@,
            ) is None {
                assert(text::views_of(epp_available@) =~= Seq::<Seq<char>>::empty());
            }
        }
        let mut online_cpus: u32 = 0;
        match fs.list_dir("sys/devices/system/cpu") {
            Ok(names) => {
                let ghost nv = text::views_of(names@);
                let mut cnt: usize = 0;
                let mut k: usize = 0;
                while k < names.len()
                    invariant
                        k <= names@.len(),
                        cnt <= k,
                        nv == text::views_of(names@),
                        nv == fs.listing(fs.full("sys/devices/system/cpu"@)),
                        count_cpus_from(nv, 0, 0) == count_cpus_from(nv, k as int, cnt as int),
                    decreases names@.len() - k,
                {
                    if is_cpu_name(names[k].as_str()) {
                        cnt = cnt + 1;
                    }
                    k = k + 1;
                }
                proof {
                    lemma_count_grows(nv, nv.len() as int, cnt as int);
                }
                if cnt > u32::MAX as usize {
                    online_cpus = u32::MAX;
                } else {
                    online_cpus = cnt as u32;
                }
            },
            Err(_) => {},
        }
        let boost = fs.read_opt("sys/devices/system/cpu/cpufreq/boost");
        let has_boost = boost.is_some();
        let boost_enabled = text::opt_is(&boost, "1");
        CpuInfo {
            model_name,
            vendor,
            family,
            model,
            scaling_driver: fs.read_opt("sys/devices/system/cpu/cpu0/cpufreq/scaling_driver"),
            governor: fs.read_opt("sys/devices/system/cpu/cpu0/cpufreq/scaling_governor"),
            epp: fs.read_opt("sys/devices/system/cpu/cpu0/cpufreq/energy_performance_preference"),
            epp_available,
            amd_pstate_mode: fs.read_opt("sys/devices/system/cpu/amd_pstate/status"),
            online_cpus,
            has_boost,
            boost_enabled,
        }
    }

    /// Whether the vendor string is AMD's.
    pub fn is_amd(&self) -> (r: bool)
        ensures
            r == (self.vendor is Some && self.vendor->0@ == "AuthenticAMD"@),
    {
        text::opt_is(&self.vendor, "AuthenticAMD")
    }

    /// Whether the scaling driver is an `amd-pstate` variant.
    pub fn is_amd_pstate(&self) -> (r: bool)
        ensures
            r == (self.scaling_driver is Some && text::has_prefix(
                self.scaling_driver->0@,
                "amd-pstate"@,
            )),
    {
        match &self.scaling_driver {
            Some(d) => text::starts_with(d.as_str(), "amd-pstate"),
            None => false,
        }
    }

    /// Whether this is a Zen 4 part: family 25, model `0x60` or above.
    pub fn is_zen4(&self) -> (r: bool)
        ensures
            r == (self.vendor is Some && self.vendor->0@ == "AuthenticAMD"@ && self.family
                == Some(25u32) && self.model is Some && self.model->0 >= 0x60),
    {
        if !self.is_amd() {
            return false;
        }
        let fam_ok = match self.family {
            Some(f) => f == 25,
            None => false,
        };
        let model_ok = match self.model {
            Some(m) => m >= 0x60,
            None => false,
        };
        fam_ok && model_ok
    }
}

/// The count fold never shrinks below its accumulator.
proof fn lemma_count_grows(names: Seq<Seq<char>>, i: int, acc: int)
    requires
        0 <= i <= names.len(),
    ensures
        count_cpus_from(names, i, acc) >= acc,
    decreases names.len() - i,
{
    if i < names.len() {
        if is_cpu_entry(names[i]) {
            lemma_count_grows(names, i + 1, acc + 1);
        } else {
            lemma_count_grows(names, i + 1, acc);
        }
    }
}

} // verus!
