//! Backlight dimming on battery, and its restoration.

use vstd::prelude::*;
use crate::config::BrightnessConfig;
use crate::detect::battery::num_at;
use crate::error::Error;
use crate::fs::SysfsRoot;
use crate::text;

verus! {

/// The first backlight device's base path, if one is listed.
pub fn find_backlight(fs: &SysfsRoot) -> (r: Option<String>)
    ensures
        match r {
            Some(p) => fs.dir_present(fs.full("sys/class/backlight"@)) && fs.listing(
                fs.full("sys/class/backlight"@),
            ).len() > 0 && p@ == "sys/class/backlight/"@ + fs.listing(
                fs.full("sys/class/backlight"@),
            )[0],
            None => !fs.dir_present(fs.full("sys/class/backlight"@)) || fs.listing(
                fs.full("sys/class/backlight"@),
            ).len() == 0,
        },
{
    match fs.list_dir("sys/class/backlight") {
        Ok(names) => {
            if names.len() == 0 {
                None
            } else {
                let p = text::concat("sys/class/backlight/", names[0].as_str());
                assert(p@ =~= "sys/class/backlight/"@ + text::views_of(names@)[0]);
                Some(p)
            }
        },
        Err(_) => None,
    }
}

/// The value dimming writes: the given percentage of the current level,
/// never below one.
pub open spec fn spec_dim_target(current: u64, percent: u8) -> int {
    let t = (current * percent) / 100;
    if t < 1 {
        1
    } else {
        t
    }
}

/// The conditions under which dimming does nothing: dimming is off, no
/// backlight is listed, the current level cannot be read or is zero, the
/// maximum cannot be read or is zero, or the target would not be dimmer
/// than the current level.
pub open spec fn spec_dim_no_work(fsv: SysfsRoot, config: BrightnessConfig) -> bool {
    ||| !config.auto_dim
    ||| !fsv.dir_present(fsv.full("sys/class/backlight"@))
    ||| fsv.listing(fsv.full("sys/class/backlight"@)).len() == 0
    ||| ({
        let base = "sys/class/backlight/"@ + fsv.listing(fsv.full("sys/class/backlight"@))[0];
        let cur = num_at(fsv, base + "/brightness"@);
        ||| cur is None
        ||| cur == Some(0u64)
        ||| (match num_at(fsv, base + "/max_brightness"@) {
            Some(m) => m,
            None => 0u64,
        }) == 0
        ||| spec_dim_target(cur->0, config.dim_percent) >= cur->0
    })
}

/// Dims the first backlight to the configured percentage of its current
/// level and reports the prior level for later restoration. Exactly when
/// none of the no-work conditions holds, the brightness file afterwards
/// carries the decimal numeral of the target and the prior level comes
/// back for restoration — unless the file refuses writes, which is the
/// one error.
pub fn dim(config: &BrightnessConfig, fs: &mut SysfsRoot) -> (r: Result<Option<u64>, Error>)
    requires
        old(fs).wf(),
    ensures
        final(fs).wf(),
        final(fs).root == old(fs).root,
        r == Ok::<Option<u64>, Error>(None::<u64>) <==> spec_dim_no_work(*old(fs), *config),
        r == Ok::<Option<u64>, Error>(None::<u64>) ==> *final(fs) == *old(fs),
        !spec_dim_no_work(*old(fs), *config) ==> ({
            let base = "sys/class/backlight/"@ + old(fs).listing(
                old(fs).full("sys/class/backlight"@),
            )[0];
            let target_path = old(fs).full(base + "/brightness"@);
            let original = num_at(*old(fs), base + "/brightness"@)->0;
            if old(fs).is_protected(target_path) {
                r is Err && r->Err_0 is SysfsWrite && *final(fs) == *old(fs)
            } else {
                &&& r == Ok::<Option<u64>, Error>(Some(original))
                &&& final(fs).lookup(target_path) is Some
                &&& text::parse_u64_seq(final(fs).lookup(target_path)->0) == Some(
                    spec_dim_target(original, config.dim_percent) as u64,
                )
                &&& forall|p: Seq<char>|
                    p != target_path ==> final(fs).lookup(p) == old(fs).lookup(p)
            }
        }),
{
    if !config.auto_dim {
        return Ok(None);
    }
    let base = match find_backlight(fs) {
        Some(b) => b,
        None => {
            return Ok(None);
        },
    };
    let brightness_path = text::concat(base.as_str(), "/brightness");
    assert(brightness_path@ =~= base@ + "/brightness"@);
    let current: u64 = match fs.read_opt(brightness_path.as_str()) {
        Some(v) => match text::parse_u64(v.as_str()) {
            Some(n) => n,
            None => {
                return Ok(None);
            },
        },
        None => {
            return Ok(None);
        },
    };
    if current == 0 {
        return Ok(None);
    }
    let max_path = text::concat(base.as_str(), "/max_brightness");
    assert(max_path@ =~= base@ + "/max_brightness"@);
    let max: u64 = match fs.read_opt(max_path.as_str()) {
        Some(v) => match text::parse_u64(v.as_str()) {
            Some(n) => n,
            None => 0,
        },
        None => 0,
    };
    if max == 0 {
        return Ok(None);
    }
    proof {
        assert((current as u128) * (config.dim_percent as u128) < 0x1_0000_0000_0000_0000_0000u128)
            by (nonlinear_arith)
            requires
                current <= u64::MAX,
                config.dim_percent <= 255,
        ;
    }
    let wide: u128 = (current as u128) * (config.dim_percent as u128) / 100;
    let target: u64 = if wide < 1 {
        1
    } else {
        if wide >= current as u128 {
            assert(spec_dim_target(current, config.dim_percent) >= current);
            return Ok(None);
        }
        wide as u64
    };
    proof {
        assert(target as int == spec_dim_target(current, config.dim_percent) || target
            >= current);
    }
    if target >= current {
        assert(spec_dim_target(current, config.dim_percent) >= current);
        return Ok(None);
    }
    assert(target as int == spec_dim_target(current, config.dim_percent));
    assert(!spec_dim_no_work(*old(fs), *config));
    let value = u64_to_string(target);
    match fs.write(brightness_path.as_str(), value.as_str()) {
        Ok(()) => Ok(Some(current)),
        Err(e) => Err(e),
    }
}

/// Restores a previously saved brightness level: with a backlight listed,
/// the brightness file afterwards carries the decimal numeral of the
/// level, unless the file refuses writes; a missing backlight is no
/// error, matching the dim path.
pub fn restore(original: u64, fs: &mut SysfsRoot) -> (r: Result<(), Error>)
    requires
        old(fs).wf(),
    ensures
        final(fs).wf(),
        final(fs).root == old(fs).root,
        (!old(fs).dir_present(old(fs).full("sys/class/backlight"@)) || old(fs).listing(
            old(fs).full("sys/class/backlight"@),
        ).len() == 0) ==> r is Ok && *final(fs) == *old(fs),
        (old(fs).dir_present(old(fs).full("sys/class/backlight"@)) && old(fs).listing(
            old(fs).full("sys/class/backlight"@),
        ).len() > 0) ==> ({
            let base = "sys/class/backlight/"@ + old(fs).listing(
                old(fs).full("sys/class/backlight"@),
            )[0];
            let target_path = old(fs).full(base + "/brightness"@);
            if old(fs).is_protected(target_path) {
                r is Err && r->Err_0 is SysfsWrite && *final(fs) == *old(fs)
            } else {
                &&& r is Ok
                &&& final(fs).lookup(target_path) is Some
                &&& text::parse_u64_seq(final(fs).lookup(target_path)->0) == Some(original)
                &&& forall|p: Seq<char>|
                    p != target_path ==> final(fs).lookup(p) == old(fs).lookup(p)
            }
        }),
{
    let base = match find_backlight(fs) {
        Some(b) => b,
        None => {
            return Ok(());
        },
    };
    let value = u64_to_string(original);
    let brightness_path = text::concat(base.as_str(), "/brightness");
    assert(brightness_path@ =~= base@ + "/brightness"@);
    match fs.write(brightness_path.as_str(), value.as_str()) {
        Ok(()) => Ok(()),
        Err(e) => Err(e),
    }
}

/// The decimal digit character of a value below ten.
fn digit_char(d: u64) -> (c: char)
    requires
        d < 10,
    ensures
        text::is_digit_char(c),
        text::digit_val(c) == d,
{
    if d == 0 {
        '0'
    } else if d == 1 {
        '1'
    } else if d == 2 {
        '2'
    } else if d == 3 {
        '3'
    } else if d == 4 {
        '4'
    } else if d == 5 {
        '5'
    } else if d == 6 {
        '6'
    } else if d == 7 {
        '7'
    } else if d == 8 {
        '8'
    } else {
        '9'
    }
}

/// The decimal numeral of a value, most significant digit first.
pub fn u64_to_string(v: u64) -> (r: String)
    ensures
        text::parse_u64_seq(r@) == Some(v),
    decreases v,
{
    if v < 10 {
        let c = digit_char(v);
        let mut s = String::new();
        text::push_char(&mut s, c);
        proof {
            assert(s@ =~= seq![c]);
            assert(text::parse_u64_from(seq![c], 1, v) == Some(v));
            assert(!(0 > (u64::MAX - text::digit_val(c)) / 10));
            assert(text::parse_u64_from(seq![c], 0, 0) == Some(v));
        }
        s
    } else {
        proof {
            assert(v / 10 < v) by (nonlinear_arith)
                requires
                    v >= 10,
            ;
        }
        let mut out = u64_to_string(v / 10);
        let ghost pre = out@;
        let c = digit_char(v % 10);
        text::push_char(&mut out, c);
        proof {
            assert(out@ =~= pre.push(c));
            lemma_parse_push(pre, c, v);
        }
        out
    }
}

/// Appending the digit of `v % 10` to the numeral of `v / 10` yields the
/// numeral of `v`.
proof fn lemma_parse_push(s: Seq<char>, c: char, v: u64)
    requires
        v > 0,
        text::parse_u64_seq(s) == Some((v / 10) as u64),
        text::is_digit_char(c),
        text::digit_val(c) == v % 10,
    ensures
        text::parse_u64_seq(s.push(c)) == Some(v),
{
    lemma_parse_push_rec(s, c, 0, 0, (v / 10) as u64, v);
}

/// The parse fold of `s.push(c)` tracks the fold of `s`, one digit
/// behind.
proof fn lemma_parse_push_rec(s: Seq<char>, c: char, i: int, acc: u64, target: u64, v: u64)
    requires
        v > 0,
        0 <= i <= s.len(),
        text::is_digit_char(c),
        text::digit_val(c) == v % 10,
        target == v / 10,
        text::parse_u64_from(s, i, acc) == Some(target),
    ensures
        text::parse_u64_from(s.push(c), i, acc) == Some(v),
    decreases s.len() - i,
{
    if i < s.len() {
        assert(s.push(c)[i] == s[i]);
        if text::is_digit_char(s[i]) && !(acc > (u64::MAX - text::digit_val(s[i])) / 10) {
            lemma_parse_push_rec(
                s,
                c,
                i + 1,
                (10 * acc + text::digit_val(s[i])) as u64,
                target,
                v,
            );
        }
    } else {
        assert(acc == target);
        assert(s.push(c)[i] == c);
        assert(10 * (v / 10) + v % 10 == v);
        assert(10 * acc + text::digit_val(c) == v);
        assert(!(acc > (u64::MAX - text::digit_val(c)) / 10)) by (nonlinear_arith)
            requires
                acc == v / 10,
                0 <= text::digit_val(c) <= 9,
                text::digit_val(c) == v % 10,
                0 < v <= u64::MAX,
        ;
        assert(text::parse_u64_from(s.push(c), i + 1, v) == Some(v));
    }
}

} // verus!
