//! Platform profile, sleep states and ACPI wake sources.

use vstd::prelude::*;
use crate::detect::dmi::opt_view;
use crate::fs::SysfsRoot;
use crate::text;

verus! {

/// One line of `/proc/acpi/wakeup`: a device that may wake the system.
#[derive(Debug, Clone)]
pub struct AcpiWakeupSource {
    pub device: String,
    pub sysfs_node: Option<String>,
    pub status: String,
    pub enabled: bool,
}

/// View of an [`AcpiWakeupSource`].
pub struct WakeupSourceView {
    pub device: Seq<char>,
    pub sysfs_node: Option<Seq<char>>,
    pub status: Seq<char>,
    pub enabled: bool,
}

impl View for AcpiWakeupSource {
    type V = WakeupSourceView;

    open spec fn view(&self) -> WakeupSourceView {
        WakeupSourceView {
            device: self.device@,
            sysfs_node: opt_view(self.sysfs_node),
            status: self.status@,
            enabled: self.enabled,
        }
    }
}

/// Views of a vector of wake sources.
pub open spec fn sources_view(v: Seq<AcpiWakeupSource>) -> Seq<WakeupSourceView> {
    v.map_values(|s: AcpiWakeupSource| s@)
}

/// Platform-wide power knobs.
#[derive(Debug, Clone)]
pub struct PlatformInfo {
    pub platform_profile: Option<String>,
    pub platform_profiles_available: Vec<String>,
    pub sleep_states_available: Vec<String>,
    pub mem_sleep: Option<String>,
    pub acpi_wakeup_sources: Vec<AcpiWakeupSource>,
}

/// The bracket-marked active choice among space-separated words, as
/// `mem_sleep` encodes it; the first word when no brackets mark one.
pub open spec fn bracketed_from(toks: Seq<Seq<char>>, i: int, cur: Option<Seq<char>>) -> Option<
    Seq<char>,
>
    decreases toks.len() - i,
{
    if i < 0 || i >= toks.len() {
        cur
    } else if toks[i].len() >= 2 && toks[i][0] == '[' && toks[i].last() == ']' {
        bracketed_from(toks, i + 1, Some(toks[i].subrange(1, toks[i].len() - 1)))
    } else {
        bracketed_from(toks, i + 1, cur)
    }
}

/// The active `mem_sleep` choice of a value like `s2idle [deep]`.
pub open spec fn spec_mem_sleep(value: Seq<char>) -> Option<Seq<char>> {
    let toks = text::split_ws(value);
    match bracketed_from(toks, 0, None) {
        Some(v) => Some(v),
        None => if toks.len() > 0 {
            Some(toks[0])
        } else {
            None
        },
    }
}

/// The wake source one wakeup line describes, when it has at least three
/// fields.
pub open spec fn spec_wakeup_line(l: Seq<char>) -> Option<WakeupSourceView> {
    let parts = text::split_ws(l);
    if parts.len() < 3 {
        None
    } else {
        let status = if parts.contains("*enabled"@) {
            "enabled"@
        } else if parts.contains("*disabled"@) {
            "disabled"@
        } else if parts.contains("enabled"@) {
            "enabled"@
        } else if parts.contains("disabled"@) {
            "disabled"@
        } else {
            Seq::empty()
        };
        let node = if text::has_prefix(parts.last(), "pci:"@) || text::has_prefix(
            parts.last(),
            "platform:"@,
        ) {
            Some(parts.last())
        } else {
            None
        };
        Some(
            WakeupSourceView {
                device: parts[0],
                sysfs_node: node,
                status: status,
                enabled: text::contains_seq(status, "enabled"@),
            },
        )
    }
}

/// Left fold of [`spec_wakeup_line`] over the wakeup file's lines.
pub open spec fn wakeup_sources_from(
    lines: Seq<Seq<char>>,
    i: int,
    acc: Seq<WakeupSourceView>,
) -> Seq<WakeupSourceView>
    decreases lines.len() - i,
{
    if i < 0 || i >= lines.len() {
        acc
    } else {
        match spec_wakeup_line(lines[i]) {
            Some(s) => wakeup_sources_from(lines, i + 1, acc.push(s)),
            None => wakeup_sources_from(lines, i + 1, acc),
        }
    }
}

/// The wake sources of a whole (trimmed) `/proc/acpi/wakeup` content.
pub open spec fn spec_wakeup_sources(content: Option<Seq<char>>) -> Seq<WakeupSourceView> {
    match content {
        Some(c) => wakeup_sources_from(text::split_lines_seq(c), 0, Seq::empty()),
        None => Seq::empty(),
    }
}

/// Parses one wakeup line.
fn parse_wakeup_line(line: &str) -> (r: Option<AcpiWakeupSource>)
    ensures
        match r {
            Some(s) => spec_wakeup_line(line@) == Some(s@),
            None => spec_wakeup_line(line@) is None,
        },
{
    let parts = text::split_whitespace(line);
    if parts.len() < 3 {
        return None;
    }
    let status: String = if text::contains_string(&parts, "*enabled") {
        "enabled".to_owned()
    } else if text::contains_string(&parts, "*disabled") {
        "disabled".to_owned()
    } else if text::contains_string(&parts, "enabled") {
        "enabled".to_owned()
    } else if text::contains_string(&parts, "disabled") {
        "disabled".to_owned()
    } else {
        String::new()
    };
    let last = &parts[parts.len() - 1];
    let node: Option<String> = if text::starts_with(last.as_str(), "pci:") || text::starts_with(
        last.as_str(),
        "platform:",
    ) {
        Some(last.clone())
    } else {
        None
    };
    let enabled = text::contains_sub(status.as_str(), "enabled");
    proof {
        assert(text::views_of(parts@).last() == parts@[parts@.len() - 1]@);
    }
    Some(
        AcpiWakeupSource { device: parts[0].clone(), sysfs_node: node, status, enabled },
    )
}

impl PlatformInfo {
    /// Reads the platform profile, sleep states and wake sources.
    pub fn detect(fs: &SysfsRoot) -> (r: Self)
        ensures
            opt_view(r.platform_profile) == fs.trimmed_at("sys/firmware/acpi/platform_profile"@),
            text::views_of(r.platform_profiles_available@) == match fs.trimmed_at(
                "sys/firmware/acpi/platform_profile_choices"@,
            ) {
                Some(v) => text::split_ws(v),
                None => Seq::empty(),
            },
            text::views_of(r.sleep_states_available@) == match fs.trimmed_at("sys/power/state"@) {
                Some(v) => text::split_ws(v),
                None => Seq::empty(),
            },
            opt_view(r.mem_sleep) == match fs.trimmed_at("sys/power/mem_sleep"@) {
                Some(v) => spec_mem_sleep(v),
                None => None,
            },
            sources_view(r.acpi_wakeup_sources@) == spec_wakeup_sources(
                fs.trimmed_at("proc/acpi/wakeup"@),
            ),
    {
        let platform_profile = fs.read_opt("sys/firmware/acpi/platform_profile");
        let platform_profiles_available: Vec<String> = match fs.read_opt(
            "sys/firmware/acpi/platform_profile_choices",
        ) {
            Some(v) => text::split_whitespace(v.as_str()),
            None => Vec::new(),
        };
        proof {
            if fs.trimmed_at("sys/firmware/acpi/platform_profile_choices"@) is None {
                assert(text::views_of(platform_profiles_available@) =~= Seq::<Seq<char>>::empty());
            }
        }
        let sleep_states_available: Vec<String> = match fs.read_opt("sys/power/state") {
            Some(v) => text::split_whitespace(v.as_str()),
            None => Vec::new(),
        };
        proof {
            if fs.trimmed_at("sys/power/state"@) is None {
                assert(text::views_of(sleep_states_available@) =~= Seq::<Seq<char>>::empty());
            }
        }
        let mem_sleep: Option<String> = match fs.read_opt("sys/power/mem_sleep") {
            Some(v) => mem_sleep_of(v.as_str()),
            None => None,
        };
        let mut acpi_wakeup_sources: Vec<AcpiWakeupSource> = Vec::new();
        assert(sources_view(acpi_wakeup_sources@) =~= Seq::<WakeupSourceView>::empty());
        match fs.read_opt("proc/acpi/wakeup") {
            Some(wakeup) => {
                let lines = text::split_lines(wakeup.as_str());
                let ghost lv = text::split_lines_seq(wakeup@);
                let mut i: usize = 0;
                while i < lines.len()
                    invariant
                        i <= lines@.len(),
                        lv == text::views_of(lines@),
                        wakeup_sources_from(lv, 0, Seq::empty()) == wakeup_sources_from(
                            lv,
                            i as int,
                            sources_view(acpi_wakeup_sources@),
                        ),
                    decreases lines@.len() - i,
                {
                    match parse_wakeup_line(lines[i].as_str()) {
                        Some(s) => {
                            let ghost before = sources_view(acpi_wakeup_sources@);
                            acpi_wakeup_sources.push(s);
                            assert(sources_view(acpi_wakeup_sources@) =~= before.push(
                                acpi_wakeup_sources@.last()@,
                            ));
                        },
                        None => {},
                    }
                    i = i + 1;
                }
            },
            None => {},
        }
        PlatformInfo {
            platform_profile,
            platform_profiles_available,
            sleep_states_available,
            mem_sleep,
            acpi_wakeup_sources,
        }
    }

    /// Whether suspend-to-idle is available and active: `mem` among the
    /// sleep states, and `s2idle` the current `mem_sleep` choice.
    pub fn has_s2idle(&self) -> (r: bool)
        ensures
            r == (text::views_of(self.sleep_states_available@).contains("mem"@)
                && self.mem_sleep is Some && self.mem_sleep->0@ == "s2idle"@),
    {
        let has_mem = text::contains_string(&self.sleep_states_available, "mem");
        has_mem && text::opt_is(&self.mem_sleep, "s2idle")
    }
}

/// The active choice of a bracket-marked value.
fn mem_sleep_of(value: &str) -> (r: Option<String>)
    ensures
        match r {
            Some(s) => spec_mem_sleep(value@) == Some(s@),
            None => spec_mem_sleep(value@) is None,
        },
{
    let toks = text::split_whitespace(value);
    let ghost tv = text::split_ws(value@);
    let mut cur: Option<String> = None;
    let mut i: usize = 0;
    while i < toks.len()
        invariant
            i <= toks@.len(),
            tv == text::views_of(toks@),
            bracketed_from(tv, 0, None) == bracketed_from(
                tv,
                i as int,
                match cur {
                    Some(v) => Some(v@),
                    None => None,
                },
            ),
        decreases toks@.len() - i,
    {
        let t = toks[i].as_str();
        let n = t.unicode_len();
        if n >= 2 && t.get_char(0) == '[' && t.get_char(n - 1) == ']' {
            cur = Some(text::substring_of(t, 1, n - 1));
        }
        i = i + 1;
    }
    match cur {
        Some(v) => Some(v),
        None => {
            if toks.len() > 0 {
                Some(toks[0].clone())
            } else {
                None
            }
        },
    }
}

} // verus!
