//! Display audit rules: backlight level, refresh-rate hint and panel
//! self-refresh.

use vstd::prelude::*;
use crate::audit::{new_finding, Finding, FindingView, Severity};
use crate::detect::{spec_has_kernel_param, spec_kernel_param_value, HardwareInfo};
use crate::fs::SysfsRoot;
use crate::text;

verus! {

/// Whether some backlight entry is brighter than seventy percent.
pub open spec fn bright_backlight_from(fsv: SysfsRoot, names: Seq<Seq<char>>, i: int) -> bool
    decreases names.len() - i,
{
    if i < 0 || i >= names.len() {
        false
    } else {
        let base = "sys/class/backlight/"@ + names[i];
        let cur = crate::detect::battery::num_at(fsv, base + "/brightness"@);
        let max = crate::detect::battery::num_at(fsv, base + "/max_brightness"@);
        if cur is Some && max is Some && max->0 > 0 && (cur->0 * 100) / (max->0 as int) > 70 {
            true
        } else {
            bright_backlight_from(fsv, names, i + 1)
        }
    }
}

/// Whether some DRM connector is a connected internal eDP panel.
pub open spec fn edp_connected_from(fsv: SysfsRoot, names: Seq<Seq<char>>, i: int) -> bool
    decreases names.len() - i,
{
    if i < 0 || i >= names.len() {
        false
    } else {
        let n = names[i];
        if text::find_char_from(n, 0, '-') < n.len() && !text::has_prefix(n, "version"@)
            && fsv.trimmed_at("sys/class/drm/"@ + n + "/status"@) == Some("connected"@)
            && text::contains_seq(n, "eDP"@) {
            true
        } else {
            edp_connected_from(fsv, names, i + 1)
        }
    }
}

/// All the display findings, in order: a bright backlight, a connected
/// internal panel that could drop its refresh rate, and panel
/// self-refresh disabled through the AMD debug mask.
pub open spec fn display_findings(hw: HardwareInfo, fsv: SysfsRoot) -> Seq<FindingView> {
    let bl_names = if fsv.dir_present(fsv.full("sys/class/backlight"@)) {
        fsv.listing(fsv.full("sys/class/backlight"@))
    } else {
        Seq::empty()
    };
    let part1: Seq<FindingView> = if bright_backlight_from(fsv, bl_names, 0) {
        seq![
            FindingView {
                recommended_value: "30-50% for indoor use"@,
                impact: "Display is often the largest power consumer"@,
                weight: 0,
                ..new_finding(
                    Severity::Info,
                    "Display"@,
                    "Backlight above 70% - reducing saves significant power"@,
                )
            },
        ]
    } else {
        Seq::empty()
    };
    let drm_names = if fsv.dir_present(fsv.full("sys/class/drm"@)) {
        fsv.listing(fsv.full("sys/class/drm"@))
    } else {
        Seq::empty()
    };
    let part2: Seq<FindingView> = if edp_connected_from(fsv, drm_names, 0) {
        seq![
            FindingView {
                impact: "~1W savings (measured with a 165Hz panel)"@,
                weight: 0,
                ..new_finding(
                    Severity::Info,
                    "Display"@,
                    "Consider reducing display refresh rate to 60Hz on battery"@,
                )
            },
        ]
    } else {
        Seq::empty()
    };
    let part3: Seq<FindingView> = if hw.gpu.spec_is_amd() && spec_has_kernel_param(
        hw.kernel_cmdline@,
        "amdgpu.dcdebugmask"@,
    ) {
        seq![
            FindingView {
                current_value: match spec_kernel_param_value(
                    hw.kernel_cmdline@,
                    "amdgpu.dcdebugmask"@,
                ) {
                    Some(v) => v,
                    None => Seq::empty(),
                },
                recommended_value: "Remove amdgpu.dcdebugmask once PSR bugs are fixed"@,
                impact: "~0.5-1.5W potential savings when PSR works correctly"@,
                weight: 0,
                ..new_finding(
                    Severity::Info,
                    "Display"@,
                    "Panel Self-Refresh may be disabled (amdgpu.dcdebugmask set)"@,
                )
            },
        ]
    } else {
        Seq::empty()
    };
    part1 + part2 + part3
}

/// Audits the display: backlight level, refresh-rate hint and PSR state.
pub fn check(hw: &HardwareInfo, fs: &SysfsRoot) -> (r: Vec<Finding>)
    ensures
        crate::audit::findings_view(r@) == display_findings(*hw, *fs),
{
    let mut findings: Vec<Finding> = Vec::new();
    let ghost target = display_findings(*hw, *fs);
    assert(crate::audit::findings_view(findings@) =~= Seq::<FindingView>::empty());

    let mut bright: bool = false;
    match fs.list_dir("sys/class/backlight") {
        Ok(names) => {
            let ghost nv = text::views_of(names@);
            let mut i: usize = 0;
            while i < names.len()
                invariant
                    i <= names@.len(),
                    nv == text::views_of(names@),
                    nv == fs.listing(fs.full("sys/class/backlight"@)),
                    bright ==> bright_backlight_from(*fs, nv, 0),
                    !bright ==> bright_backlight_from(*fs, nv, 0) == bright_backlight_from(
                        *fs,
                        nv,
                        i as int,
                    ),
                decreases names@.len() - i,
            {
                if !bright {
                    let base = text::concat("sys/class/backlight/", names[i].as_str());
                    assert(base@ =~= "sys/class/backlight/"@ + nv[i as int]);
                    let cur = read_num(fs, text::concat(base.as_str(), "/brightness").as_str());
                    let max = read_num(
                        fs,
                        text::concat(base.as_str(), "/max_brightness").as_str(),
                    );
                    match (cur, max) {
                        (Some(c), Some(m)) => {
                            if m > 0 {
                                let pct: u128 = (c as u128) * 100 / (m as u128);
                                proof {
                                    assert(pct as int == (c as int * 100) / (m as int));
                                }
                                if pct > 70 {
                                    bright = true;
                                    assert(bright_backlight_from(*fs, nv, i as int));
                                }
                            }
                        },
                        _ => {},
                    }
                }
                i = i + 1;
            }
        },
        Err(_) => {},
    }
    if bright {
        findings.push(
            Finding::new(
                Severity::Info,
                "Display",
                "Backlight above 70% - reducing saves significant power".to_owned(),
            ).recommended("30-50% for indoor use".to_owned()).impact(
                "Display is often the largest power consumer".to_owned(),
            ).weight(0),
        );
    }

    let mut edp: bool = false;
    match fs.list_dir("sys/class/drm") {
        Ok(names) => {
            let ghost nv = text::views_of(names@);
            let mut i: usize = 0;
            while i < names.len()
                invariant
                    i <= names@.len(),
                    nv == text::views_of(names@),
                    nv == fs.listing(fs.full("sys/class/drm"@)),
                    edp ==> edp_connected_from(*fs, nv, 0),
                    !edp ==> edp_connected_from(*fs, nv, 0) == edp_connected_from(
                        *fs,
                        nv,
                        i as int,
                    ),
                decreases names@.len() - i,
            {
                if !edp {
                    let n = names[i].as_str();
                    let has_dash = text::find_char(n, '-') < n.unicode_len();
                    if has_dash && !text::starts_with(n, "version") {
                        let status_path = {
                            let mut p = text::concat("sys/class/drm/", n);
                            p.append("/status");
                            p
                        };
                        assert(status_path@ =~= "sys/class/drm/"@ + nv[i as int] + "/status"@);
                        let st = fs.read_opt(status_path.as_str());
                        if text::opt_is(&st, "connected") && text::contains_sub(n, "eDP") {
                            edp = true;
                            assert(edp_connected_from(*fs, nv, i as int));
                        }
                    }
                }
                i = i + 1;
            }
        },
        Err(_) => {},
    }
    if edp {
        findings.push(
            Finding::new(
                Severity::Info,
                "Display",
                "Consider reducing display refresh rate to 60Hz on battery".to_owned(),
            ).impact("~1W savings (measured with a 165Hz panel)".to_owned()).weight(0),
        );
    }

    if hw.gpu.is_amd() && hw.has_kernel_param("amdgpu.dcdebugmask") {
        let mask: String = match hw.kernel_param_value("amdgpu.dcdebugmask") {
            Some(v) => v,
            None => String::new(),
        };
        findings.push(
            Finding::new(
                Severity::Info,
                "Display",
                "Panel Self-Refresh may be disabled (amdgpu.dcdebugmask set)".to_owned(),
            ).current(mask).recommended(
                "Remove amdgpu.dcdebugmask once PSR bugs are fixed".to_owned(),
            ).impact("~0.5-1.5W potential savings when PSR works correctly".to_owned()).weight(0),
        );
    }

    proof {
        assert(crate::audit::findings_view(findings@) =~= target);
    }
    findings
}

/// Reads and parses one numeric file.
fn read_num(fs: &SysfsRoot, rel: &str) -> (r: Option<u64>)
    ensures
        r == crate::detect::battery::num_at(*fs, rel@),
{
    match fs.read_opt(rel) {
        Some(v) => text::parse_u64(v.as_str()),
        None => None,
    }
}

} // verus!
