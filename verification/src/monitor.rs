//! RAPL energy counters: locating the zones and reading them.

use vstd::prelude::*;
use crate::fs::SysfsRoot;
use crate::text;

verus! {

/// One reading of the RAPL counters, in microjoules.
#[derive(Debug, Clone, Copy, PartialEq, Eq, Structural)]
pub struct RaplEnergy {
    pub cpu_uj: u64,
    pub soc_uj: u64,
}

/// The located energy-counter paths of the core and package zones.
#[derive(Debug, Clone)]
pub struct RaplReader {
    pub cpu_path: Option<String>,
    pub soc_path: Option<String>,
}

impl RaplReader {
    /// Scans the powercap zones for the `core` and `package-0` counters,
    /// keeping the last of each that exists.
    pub fn new(fs: &SysfsRoot) -> (r: Self) {
        let mut cpu_path: Option<String> = None;
        let mut soc_path: Option<String> = None;
        match fs.list_dir("sys/class/powercap") {
            Ok(entries) => {
                let mut i: usize = 0;
                while i < entries.len()
                    decreases entries@.len() - i,
                {
                    let base = {
                        let mut b = "sys/class/powercap/".to_owned();
                        b.append(entries[i].as_str());
                        b
                    };
                    match fs.read_opt(text::concat(base.as_str(), "/name").as_str()) {
                        Some(name) => {
                            let energy_path = text::concat(base.as_str(), "/energy_uj");
                            if text::str_eq(name.as_str(), "core") {
                                if fs.path_exists(energy_path.as_str()) {
                                    cpu_path = Some(energy_path);
                                }
                            } else if text::str_eq(name.as_str(), "package-0") {
                                if fs.path_exists(energy_path.as_str()) {
                                    soc_path = Some(energy_path);
                                }
                            }
                        },
                        None => {},
                    }
                    i = i + 1;
                }
            },
            Err(_) => {},
        }
        RaplReader { cpu_path, soc_path }
    }

    /// Reads both counters; `None` when neither zone yields energy.
    pub fn read_energy(&self, fs: &SysfsRoot) -> (r: Option<RaplEnergy>)
        ensures
            match r {
                Some(e) => e.cpu_uj > 0 || e.soc_uj > 0,
                None => true,
            },
    {
        let cpu_uj: u64 = match &self.cpu_path {
            Some(p) => match fs.read_parse_u64(p.as_str()) {
                Ok(v) => v,
                Err(_) => 0,
            },
            None => 0,
        };
        let soc_uj: u64 = match &self.soc_path {
            Some(p) => match fs.read_parse_u64(p.as_str()) {
                Ok(v) => v,
                Err(_) => 0,
            },
            None => 0,
        };
        if cpu_uj == 0 && soc_uj == 0 {
            return None;
        }
        Some(RaplEnergy { cpu_uj, soc_uj })
    }
}

} // verus!
