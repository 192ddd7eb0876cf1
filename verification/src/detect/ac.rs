//! Mains-adapter detection.

use vstd::prelude::*;
use crate::fs::SysfsRoot;
use crate::text;

verus! {

/// Whether a mains adapter is present and plugged in.
#[derive(Debug, Clone)]
pub struct AcInfo {
    pub found: bool,
    pub supply_name: Option<String>,
    pub online: bool,
}

/// Index of the first power supply whose `type` file reads `Mains`, or
/// the length when none does.
pub open spec fn first_mains_from(fsv: SysfsRoot, names: Seq<Seq<char>>, i: int) -> int
    decreases names.len() - i,
{
    if i < 0 || i >= names.len() {
        names.len() as int
    } else if fsv.trimmed_at("sys/class/power_supply/"@ + names[i] + "/type"@) == Some(
        "Mains"@,
    ) {
        i
    } else {
        first_mains_from(fsv, names, i + 1)
    }
}

impl AcInfo {
    /// Scans the power supplies for the first mains adapter and its
    /// online state.
    pub fn detect(fs: &SysfsRoot) -> (r: Self)
        ensures
            ({
                let full = fs.full("sys/class/power_supply"@);
                if !fs.dir_present(full) {
                    !r.found && r.supply_name is None && !r.online
                } else {
                    let names = fs.listing(full);
                    let m = first_mains_from(*fs, names, 0);
                    if m == names.len() {
                        !r.found && r.supply_name is None && !r.online
                    } else {
                        &&& r.found
                        &&& r.supply_name is Some
                        &&& r.supply_name->0@ == names[m]
                        &&& r.online == (fs.trimmed_at(
                            "sys/class/power_supply/"@ + names[m] + "/online"@,
                        ) == Some("1"@))
                    }
                }
            }),
    {
        let names = match fs.list_dir("sys/class/power_supply") {
            Ok(n) => n,
            Err(_) => {
                return AcInfo { found: false, supply_name: None, online: false };
            },
        };
        let ghost nv = text::views_of(names@);
        let mut i: usize = 0;
        while i < names.len()
            invariant
                i <= names@.len(),
                nv == text::views_of(names@),
                nv == fs.listing(fs.full("sys/class/power_supply"@)),
                fs.dir_present(fs.full("sys/class/power_supply"@)),
                first_mains_from(*fs, nv, 0) == first_mains_from(*fs, nv, i as int),
            decreases names@.len() - i,
        {
            let base = text::concat("sys/class/power_supply/", names[i].as_str());
            let type_path = text::concat(base.as_str(), "/type");
            assert(type_path@ =~= "sys/class/power_supply/"@ + nv[i as int] + "/type"@);
            let ptype = fs.read_opt(type_path.as_str());
            if text::opt_is(&ptype, "Mains") {
                let online_path = text::concat(base.as_str(), "/online");
                assert(online_path@ =~= "sys/class/power_supply/"@ + nv[i as int] + "/online"@);
                let online = fs.read_opt(online_path.as_str());
                let is_on = text::opt_is(&online, "1");
                proof {
                    assert(first_mains_from(*fs, nv, i as int) == i);
                }
                return AcInfo {
                    found: true,
                    supply_name: Some(names[i].clone()),
                    online: is_on,
                };
            }
            i = i + 1;
        }
        AcInfo { found: false, supply_name: None, online: false }
    }

    /// On mains power: an adapter was found and reports online.
    pub fn is_on_ac(&self) -> (r: bool)
        ensures
            r == (self.found && self.online),
    {
        self.found && self.online
    }

    /// On battery power: an adapter was found and reports offline.
    pub fn is_on_battery(&self) -> (r: bool)
        ensures
            r == (self.found && !self.online),
    {
        self.found && !self.online
    }
}

} // verus!
