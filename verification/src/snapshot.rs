//! Snapshots: a capture of the files detection reads, replayable as a
//! fresh filesystem model.

use vstd::prelude::*;
use crate::fs::{FsFile, SysfsRoot};
use crate::text;

verus! {

/// A captured tree: file paths with their trimmed values, plus the
/// directories that exist while empty.
#[derive(Debug)]
pub struct Snapshot {
    pub version: String,
    pub timestamp: String,
    pub files: Vec<FsFile>,
    pub dirs: Vec<String>,
}

/// Every captured file holds the trimmed live value of its path.
pub open spec fn snapshot_faithful(snap: Snapshot, fsv: SysfsRoot) -> bool {
    forall|k: int|
        0 <= k < snap.files@.len() ==> fsv.trimmed_at(#[trigger] snap.files@[k].path@) == Some(
            snap.files@[k].content@,
        )
}

/// Appends the file at `rel`, when one is there, keeping faithfulness.
fn capture_file(files: &mut Vec<FsFile>, fs: &SysfsRoot, rel: &str)
    requires
        forall|k: int|
            0 <= k < old(files)@.len() ==> fs.trimmed_at(#[trigger] old(files)@[k].path@)
                == Some(old(files)@[k].content@),
    ensures
        forall|k: int|
            0 <= k < final(files)@.len() ==> fs.trimmed_at(#[trigger] final(files)@[k].path@)
                == Some(final(files)@[k].content@),
{
    match fs.read_opt(rel) {
        Some(val) => {
            let ghost pre = files@;
            files.push(FsFile { path: rel.to_owned(), content: val });
            assert forall|k: int|
                0 <= k < files@.len() implies fs.trimmed_at(#[trigger] files@[k].path@) == Some(
                files@[k].content@,
            ) by {
                if k < pre.len() {
                    assert(files@[k] == pre[k]);
                }
            }
        },
        None => {},
    }
}

/// Appends the file at a base joined with a name and a suffix.
fn capture_under(files: &mut Vec<FsFile>, fs: &SysfsRoot, base: &str, name: &str, suffix: &str)
    requires
        forall|k: int|
            0 <= k < old(files)@.len() ==> fs.trimmed_at(#[trigger] old(files)@[k].path@)
                == Some(old(files)@[k].content@),
    ensures
        forall|k: int|
            0 <= k < final(files)@.len() ==> fs.trimmed_at(#[trigger] final(files)@[k].path@)
                == Some(final(files)@[k].content@),
{
    let mut rel = base.to_owned();
    rel.append(name);
    rel.append(suffix);
    capture_file(files, fs, rel.as_str());
}

impl Snapshot {
    /// Captures the fixed single files, the per-CPU tuning files, the USB
    /// devices, the backlights and the power supplies. The values stored
    /// are the trimmed live values, so replaying the snapshot gives
    /// detection the same view.
    pub fn capture(fs: &SysfsRoot) -> (r: Snapshot)
        ensures
            snapshot_faithful(r, *fs),
    {
        let mut files: Vec<FsFile> = Vec::new();
        let mut dirs: Vec<String> = Vec::new();

        capture_file(&mut files, fs, "sys/class/dmi/id/board_vendor");
        capture_file(&mut files, fs, "sys/class/dmi/id/board_name");
        capture_file(&mut files, fs, "sys/class/dmi/id/product_name");
        capture_file(&mut files, fs, "sys/class/dmi/id/product_family");
        capture_file(&mut files, fs, "sys/class/dmi/id/bios_version");
        capture_file(&mut files, fs, "sys/devices/system/cpu/cpufreq/boost");
        capture_file(&mut files, fs, "sys/devices/system/cpu/amd_pstate/status");
        capture_file(&mut files, fs, "sys/firmware/acpi/platform_profile");
        capture_file(&mut files, fs, "sys/firmware/acpi/platform_profile_choices");
        capture_file(&mut files, fs, "sys/power/state");
        capture_file(&mut files, fs, "sys/power/mem_sleep");
        capture_file(&mut files, fs, "sys/module/pcie_aspm/parameters/policy");
        capture_file(&mut files, fs, "sys/module/snd_hda_intel/parameters/power_save");
        capture_file(&mut files, fs, "sys/module/snd_hda_intel/parameters/power_save_controller");
        capture_file(&mut files, fs, "sys/module/amdgpu/parameters/abmlevel");
        capture_file(&mut files, fs, "proc/sys/kernel/nmi_watchdog");
        capture_file(&mut files, fs, "proc/sys/vm/dirty_writeback_centisecs");
        capture_file(&mut files, fs, "proc/cpuinfo");
        capture_file(&mut files, fs, "proc/cmdline");
        capture_file(&mut files, fs, "proc/acpi/wakeup");

        capture_per_cpu(fs, &mut files);
        capture_usb_devices(fs, &mut files, &mut dirs);
        capture_backlight(fs, &mut files, &mut dirs);
        capture_power_supply(fs, &mut files, &mut dirs);

        Snapshot {
            version: "0.1.0".to_owned(),
            timestamp: String::new(),
            files,
            dirs,
        }
    }

    /// Replays the snapshot as a fresh filesystem model under the given
    /// root: every captured path holds its captured value again, with the
    /// terminating newline sysfs would carry, so detection over the
    /// replayed tree sees the captured values.
    pub fn materialize(&self, root: &str) -> (r: SysfsRoot)
        ensures
            r.wf(),
            r.root@ == root@,
            forall|k: int|
                0 <= k < self.files@.len() && (forall|l: int|
                    k < l < self.files@.len() ==> self.files@[l].path@ != self.files@[
                        k
                    ].path@) ==> r.lookup(
                    crate::fs::path_join(root@, #[trigger] self.files@[k].path@),
                ) == Some(self.files@[k].content@.push('\n')),
    {
        let mut fs = SysfsRoot::new(root);
        let mut i: usize = 0;
        while i < self.dirs.len()
            invariant
                fs.wf(),
                fs.root@ == root@,
                fs.files@.len() == 0,
                fs.write_protected@.len() == 0,
            decreases self.dirs@.len() - i,
        {
            fs.add_dir(self.dirs[i].as_str());
            i = i + 1;
        }
        let mut i: usize = 0;
        while i < self.files.len()
            invariant
                i <= self.files@.len(),
                fs.wf(),
                fs.root@ == root@,
                fs.write_protected@.len() == 0,
                forall|k: int|
                    0 <= k < i && (forall|l: int|
                        k < l < i ==> self.files@[l].path@ != self.files@[k].path@)
                        ==> fs.lookup(
                        crate::fs::path_join(root@, #[trigger] self.files@[k].path@),
                    ) == Some(self.files@[k].content@.push('\n')),
            decreases self.files@.len() - i,
        {
            let ghost pre = fs;
            let mut content = self.files[i].content.clone();
            text::push_char(&mut content, '\n');
            proof {
                assert(!fs.is_protected(fs.full(self.files@[i as int].path@)));
            }
            match fs.write(self.files[i].path.as_str(), content.as_str()) {
                Ok(()) => {},
                Err(_) => {
                    // a fresh model protects no path, so a write cannot fail
                    proof {
                        assert(false);
                    }
                },
            }
            proof {
                assert forall|k: int|
                    0 <= k < i + 1 && (forall|l: int|
                        k < l < i + 1 ==> self.files@[l].path@ != self.files@[k].path@)
                        implies fs.lookup(
                        crate::fs::path_join(root@, #[trigger] self.files@[k].path@),
                    ) == Some(self.files@[k].content@.push('\n')) by {
                    if k < i {
                        assert(self.files@[i as int].path@ != self.files@[k].path@);
                        crate::fs::lemma_path_join_ne(
                            root@,
                            self.files@[k].path@,
                            self.files@[i as int].path@,
                        );
                        assert(pre.lookup(crate::fs::path_join(root@, self.files@[k].path@))
                            == Some(self.files@[k].content@.push('\n')));
                    }
                }
            }
            i = i + 1;
        }
        fs
    }
}

/// Captures the cpufreq tuning files of every per-CPU entry.
pub fn capture_per_cpu(fs: &SysfsRoot, files: &mut Vec<FsFile>)
    requires
        forall|k: int|
            0 <= k < old(files)@.len() ==> fs.trimmed_at(#[trigger] old(files)@[k].path@)
                == Some(old(files)@[k].content@),
    ensures
        forall|k: int|
            0 <= k < final(files)@.len() ==> fs.trimmed_at(#[trigger] final(files)@[k].path@)
                == Some(final(files)@[k].content@),
{
    let entries = match fs.list_dir("sys/devices/system/cpu") {
        Ok(e) => e,
        Err(_) => {
            return ;
        },
    };
    let mut i: usize = 0;
    while i < entries.len()
        invariant
            forall|k: int|
                0 <= k < files@.len() ==> fs.trimmed_at(#[trigger] files@[k].path@) == Some(
                    files@[k].content@,
                ),
        decreases entries@.len() - i,
    {
        if crate::detect::cpu::is_cpu_name(entries[i].as_str()) {
            let base = {
                let mut b = "sys/devices/system/cpu/".to_owned();
                b.append(entries[i].as_str());
                b.append("/cpufreq/");
                b
            };
            capture_under(files, fs, base.as_str(), "scaling_driver", "");
            capture_under(files, fs, base.as_str(), "scaling_governor", "");
            capture_under(files, fs, base.as_str(), "energy_performance_preference", "");
            capture_under(
                files,
                fs,
                base.as_str(),
                "energy_performance_available_preferences",
                "",
            );
        }
        i = i + 1;
    }
}

/// Captures the power and identity files of every USB device entry.
pub fn capture_usb_devices(fs: &SysfsRoot, files: &mut Vec<FsFile>, dirs: &mut Vec<String>)
    requires
        forall|k: int|
            0 <= k < old(files)@.len() ==> fs.trimmed_at(#[trigger] old(files)@[k].path@)
                == Some(old(files)@[k].content@),
    ensures
        forall|k: int|
            0 <= k < final(files)@.len() ==> fs.trimmed_at(#[trigger] final(files)@[k].path@)
                == Some(final(files)@[k].content@),
{
    let entries = match fs.list_dir("sys/bus/usb/devices") {
        Ok(e) => e,
        Err(_) => {
            return ;
        },
    };
    let mut i: usize = 0;
    while i < entries.len()
        invariant
            forall|k: int|
                0 <= k < files@.len() ==> fs.trimmed_at(#[trigger] files@[k].path@) == Some(
                    files@[k].content@,
                ),
        decreases entries@.len() - i,
    {
        let name = entries[i].as_str();
        let is_iface = text::find_char(name, ':') < name.unicode_len();
        if !is_iface {
            let base = {
                let mut b = "sys/bus/usb/devices/".to_owned();
                b.append(name);
                b
            };
            dirs.push(text::concat(base.as_str(), "/power"));
            capture_under(files, fs, base.as_str(), "/power/control", "");
            capture_under(files, fs, base.as_str(), "/product", "");
            capture_under(files, fs, base.as_str(), "/manufacturer", "");
            capture_under(files, fs, base.as_str(), "/idVendor", "");
            capture_under(files, fs, base.as_str(), "/idProduct", "");
        }
        i = i + 1;
    }
}

/// Captures the brightness files of every backlight.
pub fn capture_backlight(fs: &SysfsRoot, files: &mut Vec<FsFile>, dirs: &mut Vec<String>)
    requires
        forall|k: int|
            0 <= k < old(files)@.len() ==> fs.trimmed_at(#[trigger] old(files)@[k].path@)
                == Some(old(files)@[k].content@),
    ensures
        forall|k: int|
            0 <= k < final(files)@.len() ==> fs.trimmed_at(#[trigger] final(files)@[k].path@)
                == Some(final(files)@[k].content@),
{
    let entries = match fs.list_dir("sys/class/backlight") {
        Ok(e) => e,
        Err(_) => {
            return ;
        },
    };
    let mut i: usize = 0;
    while i < entries.len()
        invariant
            forall|k: int|
                0 <= k < files@.len() ==> fs.trimmed_at(#[trigger] files@[k].path@) == Some(
                    files@[k].content@,
                ),
        decreases entries@.len() - i,
    {
        let base = {
            let mut b = "sys/class/backlight/".to_owned();
            b.append(entries[i].as_str());
            b
        };
        dirs.push(base.clone());
        capture_under(files, fs, base.as_str(), "/brightness", "");
        capture_under(files, fs, base.as_str(), "/max_brightness", "");
        capture_under(files, fs, base.as_str(), "/actual_brightness", "");
        i = i + 1;
    }
}

/// Captures the counters of every power supply.
pub fn capture_power_supply(fs: &SysfsRoot, files: &mut Vec<FsFile>, dirs: &mut Vec<String>)
    requires
        forall|k: int|
            0 <= k < old(files)@.len() ==> fs.trimmed_at(#[trigger] old(files)@[k].path@)
                == Some(old(files)@[k].content@),
    ensures
        forall|k: int|
            0 <= k < final(files)@.len() ==> fs.trimmed_at(#[trigger] final(files)@[k].path@)
                == Some(final(files)@[k].content@),
{
    let entries = match fs.list_dir("sys/class/power_supply") {
        Ok(e) => e,
        Err(_) => {
            return ;
        },
    };
    let mut i: usize = 0;
    while i < entries.len()
        invariant
            forall|k: int|
                0 <= k < files@.len() ==> fs.trimmed_at(#[trigger] files@[k].path@) == Some(
                    files@[k].content@,
                ),
        decreases entries@.len() - i,
    {
        let base = {
            let mut b = "sys/class/power_supply/".to_owned();
            b.append(entries[i].as_str());
            b
        };
        dirs.push(base.clone());
        capture_under(files, fs, base.as_str(), "/type", "");
        capture_under(files, fs, base.as_str(), "/online", "");
        capture_under(files, fs, base.as_str(), "/present", "");
        capture_under(files, fs, base.as_str(), "/status", "");
        capture_under(files, fs, base.as_str(), "/capacity", "");
        capture_under(files, fs, base.as_str(), "/energy_now", "");
        capture_under(files, fs, base.as_str(), "/energy_full", "");
        capture_under(files, fs, base.as_str(), "/energy_full_design", "");
        capture_under(files, fs, base.as_str(), "/power_now", "");
        capture_under(files, fs, base.as_str(), "/charge_now", "");
        capture_under(files, fs, base.as_str(), "/charge_full", "");
        capture_under(files, fs, base.as_str(), "/charge_full_design", "");
        capture_under(files, fs, base.as_str(), "/current_now", "");
        capture_under(files, fs, base.as_str(), "/voltage_now", "");
        capture_under(files, fs, base.as_str(), "/cycle_count", "");
        i = i + 1;
    }
}

} // verus!
