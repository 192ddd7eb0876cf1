//! Battery detection: raw energy and charge counters.

use vstd::prelude::*;
use crate::detect::dmi::opt_view;
use crate::fs::SysfsRoot;
use crate::text;

verus! {

/// Raw battery state: energy-based counters (µWh/µW) where the battery
/// exposes them, charge-based ones (µAh/µA plus voltage) otherwise.
#[derive(Debug, Clone)]
pub struct BatteryInfo {
    pub present: bool,
    pub status: Option<String>,
    pub capacity_percent: Option<u32>,
    pub energy_now_uwh: Option<u64>,
    pub energy_full_uwh: Option<u64>,
    pub energy_full_design_uwh: Option<u64>,
    pub power_now_uw: Option<u64>,
    pub charge_now_uah: Option<u64>,
    pub charge_full_uah: Option<u64>,
    pub charge_full_design_uah: Option<u64>,
    pub current_now_ua: Option<u64>,
    pub voltage_now_uv: Option<u64>,
    pub cycle_count: Option<u32>,
    pub supply_name: Option<String>,
}

/// The trimmed value at a battery file parsed as a decimal.
pub open spec fn num_at(fsv: SysfsRoot, rel: Seq<char>) -> Option<u64> {
    match fsv.trimmed_at(rel) {
        Some(v) => text::parse_u64_seq(v),
        None => None,
    }
}

/// Reads and parses one numeric battery file.
fn read_u64(fs: &SysfsRoot, rel: &str) -> (r: Option<u64>)
    ensures
        r == num_at(*fs, rel@),
{
    match fs.read_opt(rel) {
        Some(v) => text::parse_u64(v.as_str()),
        None => None,
    }
}

/// Index of the first power supply whose name starts with `BAT`, or the
/// length when none does.
pub open spec fn first_bat_from(names: Seq<Seq<char>>, i: int) -> int
    decreases names.len() - i,
{
    if i < 0 || i >= names.len() {
        names.len() as int
    } else if text::has_prefix(names[i], "BAT"@) {
        i
    } else {
        first_bat_from(names, i + 1)
    }
}

impl BatteryInfo {
    /// An empty record: no battery found.
    fn none() -> (r: Self)
        ensures
            !r.present && r.supply_name is None && r.status is None,
            r.capacity_percent is None && r.cycle_count is None,
            r.energy_now_uwh is None && r.energy_full_uwh is None,
            r.energy_full_design_uwh is None && r.power_now_uw is None,
            r.charge_now_uah is None && r.charge_full_uah is None,
            r.charge_full_design_uah is None && r.current_now_ua is None,
            r.voltage_now_uv is None,
    {
        BatteryInfo {
            present: false,
            status: None,
            capacity_percent: None,
            energy_now_uwh: None,
            energy_full_uwh: None,
            energy_full_design_uwh: None,
            power_now_uw: None,
            charge_now_uah: None,
            charge_full_uah: None,
            charge_full_design_uah: None,
            current_now_ua: None,
            voltage_now_uv: None,
            cycle_count: None,
            supply_name: None,
        }
    }

    /// Finds the first `BAT*` supply and reads its counters; a supply
    /// whose `type` file disagrees with `Battery` is left at name-only.
    pub fn detect(fs: &SysfsRoot) -> (r: Self)
        ensures
            ({
                let full = fs.full("sys/class/power_supply"@);
                if !fs.dir_present(full) || first_bat_from(fs.listing(full), 0) == fs.listing(
                    full,
                ).len() {
                    !r.present && r.supply_name is None
                } else {
                    let names = fs.listing(full);
                    let m = first_bat_from(names, 0);
                    let base = "sys/class/power_supply/"@ + names[m];
                    let ptype = fs.trimmed_at(base + "/type"@);
                    &&& r.supply_name is Some
                    &&& r.supply_name->0@ == names[m]
                    &&& if ptype is Some && ptype != Some("Battery"@) {
                        !r.present
                    } else {
                        &&& r.present == (fs.trimmed_at(base + "/present"@) == Some("1"@))
                        &&& opt_view(r.status) == fs.trimmed_at(base + "/status"@)
                        &&& r.capacity_percent == match num_at(*fs, base + "/capacity"@) {
                            Some(v) => Some(v as u32),
                            None => None,
                        }
                        &&& r.energy_now_uwh == num_at(*fs, base + "/energy_now"@)
                        &&& r.energy_full_uwh == num_at(*fs, base + "/energy_full"@)
                        &&& r.energy_full_design_uwh == num_at(
                            *fs,
                            base + "/energy_full_design"@,
                        )
                        &&& r.power_now_uw == num_at(*fs, base + "/power_now"@)
                        &&& r.charge_now_uah == num_at(*fs, base + "/charge_now"@)
                        &&& r.charge_full_uah == num_at(*fs, base + "/charge_full"@)
                        &&& r.charge_full_design_uah == num_at(
                            *fs,
                            base + "/charge_full_design"@,
                        )
                        &&& r.current_now_ua == num_at(*fs, base + "/current_now"@)
                        &&& r.voltage_now_uv == num_at(*fs, base + "/voltage_now"@)
                        &&& r.cycle_count == match num_at(*fs, base + "/cycle_count"@) {
                            Some(v) => Some(v as u32),
                            None => None,
                        }
                    }
                }
            }),
    {
        let names = match fs.list_dir("sys/class/power_supply") {
            Ok(n) => n,
            Err(_) => {
                return Self::none();
            },
        };
        let ghost nv = text::views_of(names@);
        let mut i: usize = 0;
        while i < names.len()
            invariant
                i <= names@.len(),
                nv == text::views_of(names@),
                nv == fs.listing(fs.full("sys/class/power_supply"@)),
                fs.dir_present(fs.full("sys/class/power_supply"@)),
                first_bat_from(nv, 0) == first_bat_from(nv, i as int),
            decreases names@.len() - i,
        {
            if text::starts_with(names[i].as_str(), "BAT") {
                proof {
                    assert(first_bat_from(nv, i as int) == i);
                }
                let base = text::concat("sys/class/power_supply/", names[i].as_str());
                assert(base@ =~= "sys/class/power_supply/"@ + nv[i as int]);
                let ptype = fs.read_opt(text::concat(base.as_str(), "/type").as_str());
                let type_mismatch = match &ptype {
                    Some(t) => !text::str_eq(t.as_str(), "Battery"),
                    None => false,
                };
                if type_mismatch {
                    let mut info = Self::none();
                    info.supply_name = Some(names[i].clone());
                    return info;
                }
                let present = text::opt_is(
                    &fs.read_opt(text::concat(base.as_str(), "/present").as_str()),
                    "1",
                );
                let capacity_percent = match read_u64(
                    fs,
                    text::concat(base.as_str(), "/capacity").as_str(),
                ) {
                    Some(v) => Some(v as u32),
                    None => None,
                };
                let cycle_count = match read_u64(
                    fs,
                    text::concat(base.as_str(), "/cycle_count").as_str(),
                ) {
                    Some(v) => Some(v as u32),
                    None => None,
                };
                return BatteryInfo {
                    present,
                    status: fs.read_opt(text::concat(base.as_str(), "/status").as_str()),
                    capacity_percent,
                    energy_now_uwh: read_u64(
                        fs,
                        text::concat(base.as_str(), "/energy_now").as_str(),
                    ),
                    energy_full_uwh: read_u64(
                        fs,
                        text::concat(base.as_str(), "/energy_full").as_str(),
                    ),
                    energy_full_design_uwh: read_u64(
                        fs,
                        text::concat(base.as_str(), "/energy_full_design").as_str(),
                    ),
                    power_now_uw: read_u64(
                        fs,
                        text::concat(base.as_str(), "/power_now").as_str(),
                    ),
                    charge_now_uah: read_u64(
                        fs,
                        text::concat(base.as_str(), "/charge_now").as_str(),
                    ),
                    charge_full_uah: read_u64(
                        fs,
                        text::concat(base.as_str(), "/charge_full").as_str(),
                    ),
                    charge_full_design_uah: read_u64(
                        fs,
                        text::concat(base.as_str(), "/charge_full_design").as_str(),
                    ),
                    current_now_ua: read_u64(
                        fs,
                        text::concat(base.as_str(), "/current_now").as_str(),
                    ),
                    voltage_now_uv: read_u64(
                        fs,
                        text::concat(base.as_str(), "/voltage_now").as_str(),
                    ),
                    cycle_count,
                    supply_name: Some(names[i].clone()),
                };
            }
            i = i + 1;
        }
        Self::none()
    }

    /// Whether the battery reports that it is discharging.
    pub fn is_discharging(&self) -> (r: bool)
        ensures
            r == (self.status is Some && self.status->0@ == "Discharging"@),
    {
        text::opt_is(&self.status, "Discharging")
    }
}

} // verus!
