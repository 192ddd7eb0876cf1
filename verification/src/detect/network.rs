//! Wireless-interface detection.

use vstd::prelude::*;
use crate::fs::SysfsRoot;
use crate::text;

verus! {

/// The wireless interface and its driver, when one exists.
#[derive(Debug, Clone)]
pub struct NetworkInfo {
    pub wifi_interface: Option<String>,
    pub wifi_driver: Option<String>,
}

/// Index of the first interface with a `wireless` directory, or the
/// length when none has one.
pub open spec fn first_wireless_from(fsv: SysfsRoot, names: Seq<Seq<char>>, i: int) -> int
    decreases names.len() - i,
{
    if i < 0 || i >= names.len() {
        names.len() as int
    } else if fsv.present(fsv.full("sys/class/net/"@ + names[i] + "/wireless"@)) {
        i
    } else {
        first_wireless_from(fsv, names, i + 1)
    }
}

impl NetworkInfo {
    /// Finds the first wireless interface and reads its driver link.
    pub fn detect(fs: &SysfsRoot) -> (r: Self)
        ensures
            ({
                let full = fs.full("sys/class/net"@);
                if !fs.dir_present(full) {
                    r.wifi_interface is None && r.wifi_driver is None
                } else {
                    let names = fs.listing(full);
                    let m = first_wireless_from(*fs, names, 0);
                    if m == names.len() {
                        r.wifi_interface is None && r.wifi_driver is None
                    } else {
                        &&& r.wifi_interface is Some
                        &&& r.wifi_interface->0@ == names[m]
                        &&& match crate::fs::link_from(
                            fs.links@,
                            0,
                            fs.full("sys/class/net/"@ + names[m] + "/device/driver"@),
                        ) {
                            Some(t) => r.wifi_driver is Some && r.wifi_driver->0@
                                == crate::fs::spec_basename(t),
                            None => r.wifi_driver is None,
                        }
                    }
                }
            }),
    {
        let names = match fs.list_dir("sys/class/net") {
            Ok(n) => n,
            Err(_) => {
                return NetworkInfo { wifi_interface: None, wifi_driver: None };
            },
        };
        let ghost nv = text::views_of(names@);
        let mut i: usize = 0;
        while i < names.len()
            invariant
                i <= names@.len(),
                nv == text::views_of(names@),
                nv == fs.listing(fs.full("sys/class/net"@)),
                fs.dir_present(fs.full("sys/class/net"@)),
                first_wireless_from(*fs, nv, 0) == first_wireless_from(*fs, nv, i as int),
            decreases names@.len() - i,
        {
            let base = text::concat("sys/class/net/", names[i].as_str());
            let wireless_path = text::concat(base.as_str(), "/wireless");
            assert(wireless_path@ =~= "sys/class/net/"@ + nv[i as int] + "/wireless"@);
            if fs.path_exists(wireless_path.as_str()) {
                let driver_path = text::concat(base.as_str(), "/device/driver");
                assert(driver_path@ =~= "sys/class/net/"@ + nv[i as int] + "/device/driver"@);
                let driver = fs.link_name(driver_path.as_str());
                proof {
                    assert(first_wireless_from(*fs, nv, i as int) == i);
                }
                return NetworkInfo {
                    wifi_interface: Some(names[i].clone()),
                    wifi_driver: driver,
                };
            }
            i = i + 1;
        }
        NetworkInfo { wifi_interface: None, wifi_driver: None }
    }

    /// Whether the wireless driver is a MediaTek `mt7*` one.
    pub fn is_mediatek(&self) -> (r: bool)
        ensures
            r == (self.wifi_driver is Some && text::has_prefix(self.wifi_driver->0@, "mt7"@)),
    {
        match &self.wifi_driver {
            Some(d) => text::starts_with(d.as_str(), "mt7"),
            None => false,
        }
    }
}

} // verus!
