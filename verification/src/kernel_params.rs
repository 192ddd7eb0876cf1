//! The bootloader-aware kernel-parameter editor.
//!
//! Pure token and line transformations come first, each pinned to a spec
//! twin; the file-level editors then run them over the filesystem model,
//! capturing byte-exact backups of every file they change.

use vstd::prelude::*;
use crate::error::Error;
use crate::fs::SysfsRoot;
use crate::journal::{BackupView, KernelParamBackup};
use crate::text;

verus! {

/// Detected bootloader variant.
#[derive(Debug, Clone, Copy, PartialEq, Eq, Structural)]
pub enum BootloaderType {
    SystemdBoot,
    Grub,
}

/// Detects the bootloader under the given root: systemd-boot wins when
/// both are present, because a stale GRUB default file can linger after a
/// switch.
pub fn detect_bootloader(fs: &SysfsRoot) -> (r: Result<BootloaderType, Error>)
    ensures
        match r {
            Ok(b) => if fs.present(fs.full("boot/loader/entries"@)) {
                b == BootloaderType::SystemdBoot
            } else {
                b == BootloaderType::Grub && fs.present(fs.full("etc/default/grub"@))
            },
            Err(e) => !fs.present(fs.full("boot/loader/entries"@)) && !fs.present(
                fs.full("etc/default/grub"@),
            ) && e is Bootloader,
        },
{
    if fs.path_exists("boot/loader/entries") {
        return Ok(BootloaderType::SystemdBoot);
    }
    if fs.path_exists("etc/default/grub") {
        return Ok(BootloaderType::Grub);
    }
    Err(
        Error::Bootloader(
            "no supported bootloader found (checked systemd-boot and GRUB)".to_owned(),
        ),
    )
}

// ---------------------------------------------------------------------------
// Token transformations shared by both bootloaders
// ---------------------------------------------------------------------------

/// The parameter name of a token: everything before the first `=`.
pub open spec fn tok_name(t: Seq<char>) -> Seq<char> {
    text::param_name_seq(t)
}

/// Whether the token names the same parameter and may be replaced. The
/// leading `options` keyword of a systemd-boot line never is.
pub open spec fn replaceable(t: Seq<char>, param: Seq<char>) -> bool {
    tok_name(t) == tok_name(param) && t != "options"@
}

/// One parameter applied to a systemd-boot `options` line: left alone when
/// set verbatim; otherwise every same-name token is replaced in place, or
/// the parameter is appended when none matches.
pub open spec fn spec_add_param_to_line(cur: Seq<char>, param: Seq<char>) -> Seq<char> {
    let toks = text::split_ws(cur);
    if toks.contains(param) {
        cur
    } else {
        let mapped = toks.map_values(
            |t: Seq<char>| if replaceable(t, param) {
                param
            } else {
                t
            },
        );
        let joined = text::join_seq(mapped, " "@);
        if exists|q: int| 0 <= q < toks.len() && replaceable(#[trigger] toks[q], param) {
            joined
        } else {
            joined.push(' ') + param
        }
    }
}

/// All parameters applied to an `options` line, left to right.
pub open spec fn spec_add_params_to_line_from(
    line: Seq<char>,
    ps: Seq<Seq<char>>,
    k: int,
) -> Seq<char>
    decreases ps.len() - k,
{
    if k < 0 || k >= ps.len() {
        line
    } else {
        spec_add_params_to_line_from(spec_add_param_to_line(line, ps[k]), ps, k + 1)
    }
}

/// The `options` line with every parameter added or replaced.
pub open spec fn spec_add_params_to_line(line: Seq<char>, ps: Seq<Seq<char>>) -> Seq<char> {
    spec_add_params_to_line_from(line, ps, 0)
}

/// Adds params to a space-separated systemd-boot `options` line.
pub fn add_params_to_line(line: &str, params: &Vec<String>) -> (r: String)
    ensures
        r@ == spec_add_params_to_line(line@, text::views_of(params@)),
{
    let ghost ps = text::views_of(params@);
    let mut cur: String = line.to_owned();
    let mut k: usize = 0;
    while k < params.len()
        invariant
            k <= params@.len(),
            ps == text::views_of(params@),
            spec_add_params_to_line(line@, ps) == spec_add_params_to_line_from(
                cur@,
                ps,
                k as int,
            ),
        decreases params@.len() - k,
    {
        cur = add_one_param_to_line(cur.as_str(), &params[k]);
        k = k + 1;
    }
    cur
}

/// One step of [`add_params_to_line`].
fn add_one_param_to_line(cur: &str, param: &String) -> (r: String)
    ensures
        r@ == spec_add_param_to_line(cur@, param@),
{
    let toks = text::split_whitespace(cur);
    let ghost tv = text::split_ws(cur@);
    if text::contains_string(&toks, param.as_str()) {
        return cur.to_owned();
    }
    let pname = text::param_name(param.as_str());
    let ghost mapped_spec = tv.map_values(
        |t: Seq<char>| if replaceable(t, param@) {
            param@
        } else {
            t
        },
    );
    let mut mapped: Vec<String> = Vec::new();
    let mut found: bool = false;
    assert(text::views_of(mapped@) =~= mapped_spec.subrange(0, 0));
    let mut j: usize = 0;
    while j < toks.len()
        invariant
            j <= toks@.len(),
            tv == text::views_of(toks@),
            mapped_spec == tv.map_values(
                |t: Seq<char>| if replaceable(t, param@) {
                    param@
                } else {
                    t
                },
            ),
            pname@ == tok_name(param@),
            text::views_of(mapped@) == mapped_spec.subrange(0, j as int),
            found == exists|q: int| 0 <= q < j && replaceable(#[trigger] tv[q], param@),
        decreases toks@.len() - j,
    {
        let ghost before = text::views_of(mapped@);
        let tname = text::param_name(toks[j].as_str());
        let is_opt = text::str_eq(toks[j].as_str(), "options");
        if text::str_eq(tname.as_str(), pname.as_str()) && !is_opt {
            mapped.push(param.clone());
            proof {
                assert(replaceable(tv[j as int], param@));
            }
            found = true;
        } else {
            mapped.push(toks[j].clone());
            proof {
                assert(!replaceable(tv[j as int], param@));
            }
        }
        assert(text::views_of(mapped@) =~= before.push(mapped_spec[j as int]));
        assert(text::views_of(mapped@) =~= mapped_spec.subrange(0, j + 1));
        j = j + 1;
    }
    assert(mapped_spec.subrange(0, toks@.len() as int) =~= mapped_spec);
    let joined = text::join(&mapped, " ");
    if found {
        joined
    } else {
        let mut out = joined;
        text::push_char(&mut out, ' ');
        out.append(param.as_str());
        out
    }
}

/// Whether a token survives removal: the `options` keyword always does;
/// any other token goes when its name is on the list.
pub open spec fn keeps_tok(t: Seq<char>, names: Seq<Seq<char>>) -> bool {
    t == "options"@ || !names.contains(tok_name(t))
}

/// Left fold keeping the surviving tokens.
pub open spec fn kept_toks_from(
    toks: Seq<Seq<char>>,
    names: Seq<Seq<char>>,
    i: int,
    acc: Seq<Seq<char>>,
) -> Seq<Seq<char>>
    decreases toks.len() - i,
{
    if i < 0 || i >= toks.len() {
        acc
    } else if keeps_tok(toks[i], names) {
        kept_toks_from(toks, names, i + 1, acc.push(toks[i]))
    } else {
        kept_toks_from(toks, names, i + 1, acc)
    }
}

/// The `options` line with every listed parameter name removed.
pub open spec fn spec_remove_params_from_line(line: Seq<char>, names: Seq<Seq<char>>) -> Seq<
    char,
> {
    text::join_seq(kept_toks_from(text::split_ws(line), names, 0, Seq::empty()), " "@)
}

/// Removes params from a space-separated systemd-boot `options` line.
pub fn remove_params_from_line(line: &str, param_names: &Vec<String>) -> (r: String)
    ensures
        r@ == spec_remove_params_from_line(line@, text::views_of(param_names@)),
{
    let ghost names = text::views_of(param_names@);
    let toks = text::split_whitespace(line);
    let ghost tv = text::split_ws(line@);
    let mut kept: Vec<String> = Vec::new();
    assert(text::views_of(kept@) =~= Seq::<Seq<char>>::empty());
    let mut j: usize = 0;
    while j < toks.len()
        invariant
            j <= toks@.len(),
            tv == text::views_of(toks@),
            names == text::views_of(param_names@),
            kept_toks_from(tv, names, 0, Seq::empty()) == kept_toks_from(
                tv,
                names,
                j as int,
                text::views_of(kept@),
            ),
        decreases toks@.len() - j,
    {
        let is_opt = text::str_eq(toks[j].as_str(), "options");
        let tname = text::param_name(toks[j].as_str());
        let listed = text::contains_string(param_names, tname.as_str());
        if is_opt || !listed {
            let ghost before = text::views_of(kept@);
            assert(keeps_tok(tv[j as int], names));
            kept.push(toks[j].clone());
            assert(text::views_of(kept@) =~= before.push(tv[j as int]));
        } else {
            assert(!keeps_tok(tv[j as int], names));
        }
        j = j + 1;
    }
    text::join(&kept, " ")
}

/// Position of the first token with the parameter's name, or the length.
pub open spec fn find_name_from(toks: Seq<Seq<char>>, param: Seq<char>, k: int) -> int
    decreases toks.len() - k,
{
    if k < 0 || k >= toks.len() {
        toks.len() as int
    } else if tok_name(toks[k]) == tok_name(param) {
        k
    } else {
        find_name_from(toks, param, k + 1)
    }
}

/// One parameter applied to a bare value's token list: kept as is when set
/// verbatim; otherwise the first same-name token is replaced, or the
/// parameter appended.
pub open spec fn spec_value_step(toks: Seq<Seq<char>>, param: Seq<char>) -> Seq<Seq<char>> {
    if toks.contains(param) {
        toks
    } else {
        let p = find_name_from(toks, param, 0);
        if p < toks.len() {
            toks.update(p, param)
        } else {
            toks.push(param)
        }
    }
}

/// All parameters applied to a token list, left to right.
pub open spec fn spec_value_toks_from(toks: Seq<Seq<char>>, ps: Seq<Seq<char>>, k: int) -> Seq<
    Seq<char>,
>
    decreases ps.len() - k,
{
    if k < 0 || k >= ps.len() {
        toks
    } else {
        spec_value_toks_from(spec_value_step(toks, ps[k]), ps, k + 1)
    }
}

/// A bare GRUB value with every parameter added or replaced; tokens are
/// re-joined with single spaces.
pub open spec fn spec_add_params_to_value(value: Seq<char>, ps: Seq<Seq<char>>) -> Seq<char> {
    text::join_seq(spec_value_toks_from(text::split_ws(value), ps, 0), " "@)
}

/// Adds params to a bare value string (no prefix keyword), as used inside
/// GRUB command-line assignments.
pub fn add_params_to_value(value: &str, params: &Vec<String>) -> (r: String)
    ensures
        r@ == spec_add_params_to_value(value@, text::views_of(params@)),
{
    let ghost ps = text::views_of(params@);
    let mut toks = text::split_whitespace(value);
    let ghost t0 = text::split_ws(value@);
    let mut k: usize = 0;
    while k < params.len()
        invariant
            k <= params@.len(),
            ps == text::views_of(params@),
            spec_value_toks_from(t0, ps, 0) == spec_value_toks_from(
                text::views_of(toks@),
                ps,
                k as int,
            ),
        decreases params@.len() - k,
    {
        let ghost cur = text::views_of(toks@);
        let param = &params[k];
        if !text::contains_string(&toks, param.as_str()) {
            let pname = text::param_name(param.as_str());
            let mut j: usize = 0;
            let n = toks.len();
            while j < n
                invariant
                    j <= n,
                    n == toks@.len(),
                    cur == text::views_of(toks@),
                    pname@ == tok_name(param@),
                    find_name_from(cur, param@, 0) == find_name_from(cur, param@, j as int),
                ensures
                    cur == text::views_of(toks@),
                    n == toks@.len(),
                    j <= n,
                    j == find_name_from(cur, param@, 0),
                decreases n - j,
            {
                let tname = text::param_name(toks[j].as_str());
                if text::str_eq(tname.as_str(), pname.as_str()) {
                    proof {
                        assert(find_name_from(cur, param@, j as int) == j);
                    }
                    break;
                }
                j = j + 1;
            }
            if j < n {
                toks[j] = param.clone();
                assert(text::views_of(toks@) =~= cur.update(j as int, param@));
            } else {
                toks.push(param.clone());
                assert(text::views_of(toks@) =~= cur.push(param@));
            }
        }
        k = k + 1;
    }
    text::join(&toks, " ")
}

/// Left fold keeping tokens whose name is not listed.
pub open spec fn value_kept_from(
    toks: Seq<Seq<char>>,
    names: Seq<Seq<char>>,
    i: int,
    acc: Seq<Seq<char>>,
) -> Seq<Seq<char>>
    decreases toks.len() - i,
{
    if i < 0 || i >= toks.len() {
        acc
    } else if !names.contains(tok_name(toks[i])) {
        value_kept_from(toks, names, i + 1, acc.push(toks[i]))
    } else {
        value_kept_from(toks, names, i + 1, acc)
    }
}

/// A bare GRUB value with every listed parameter name removed.
pub open spec fn spec_remove_params_from_value(value: Seq<char>, names: Seq<Seq<char>>) -> Seq<
    char,
> {
    text::join_seq(value_kept_from(text::split_ws(value), names, 0, Seq::empty()), " "@)
}

/// Removes params from a bare value string.
pub fn remove_params_from_value(value: &str, param_names: &Vec<String>) -> (r: String)
    ensures
        r@ == spec_remove_params_from_value(value@, text::views_of(param_names@)),
{
    let ghost names = text::views_of(param_names@);
    let toks = text::split_whitespace(value);
    let ghost tv = text::split_ws(value@);
    let mut kept: Vec<String> = Vec::new();
    assert(text::views_of(kept@) =~= Seq::<Seq<char>>::empty());
    let mut j: usize = 0;
    while j < toks.len()
        invariant
            j <= toks@.len(),
            tv == text::views_of(toks@),
            names == text::views_of(param_names@),
            value_kept_from(tv, names, 0, Seq::empty()) == value_kept_from(
                tv,
                names,
                j as int,
                text::views_of(kept@),
            ),
        decreases toks@.len() - j,
    {
        let tname = text::param_name(toks[j].as_str());
        if !text::contains_string(param_names, tname.as_str()) {
            let ghost before = text::views_of(kept@);
            kept.push(toks[j].clone());
            assert(text::views_of(kept@) =~= before.push(tv[j as int]));
        }
        j = j + 1;
    }
    text::join(&kept, " ")
}

// ---------------------------------------------------------------------------
// GRUB line handling
// ---------------------------------------------------------------------------

/// Whether a line is the `GRUB_CMDLINE_LINUX_DEFAULT` assignment; other
/// assignments, `GRUB_CMDLINE_LINUX` included, never match.
pub open spec fn spec_is_grub_cmdline_line(line: Seq<char>) -> bool {
    let t = text::trim_front(line);
    &&& text::has_prefix(t, "GRUB_CMDLINE_LINUX_DEFAULT"@)
    &&& t.len() > "GRUB_CMDLINE_LINUX_DEFAULT"@.len()
    &&& t["GRUB_CMDLINE_LINUX_DEFAULT"@.len() as int] == '='
}

/// Executable mirror of [`spec_is_grub_cmdline_line`].
pub fn is_grub_cmdline_line(line: &str) -> (r: bool)
    ensures
        r == spec_is_grub_cmdline_line(line@),
{
    let trimmed = text::trim_start(line);
    let vlen = "GRUB_CMDLINE_LINUX_DEFAULT".unicode_len();
    if !text::starts_with(trimmed.as_str(), "GRUB_CMDLINE_LINUX_DEFAULT") {
        return false;
    }
    trimmed.as_str().unicode_len() > vlen && trimmed.as_str().get_char(vlen) == '='
}

/// Position of the `=` that splits a GRUB assignment.
pub open spec fn grub_eq_pos(line: Seq<char>) -> int {
    text::find_char_from(line, 0, '=')
}

/// The quote character the assignment uses; `"` when it has none.
pub open spec fn grub_quote(line: Seq<char>) -> char {
    let raw = line.subrange(grub_eq_pos(line) + 1, line.len() as int);
    if raw.len() > 0 && raw[0] == '\'' {
        '\''
    } else {
        '"'
    }
}

/// The value between the quotes of the assignment.
pub open spec fn grub_value(line: Seq<char>) -> Seq<char> {
    let raw = line.subrange(grub_eq_pos(line) + 1, line.len() as int);
    if raw.len() > 0 && (raw[0] == '"' || raw[0] == '\'') {
        let x = raw.drop_first();
        if x.len() > 0 && x.last() == raw[0] {
            x.drop_last()
        } else {
            x
        }
    } else {
        raw
    }
}

/// The assignment rebuilt around a new value, keeping its quote style; a
/// line without `=` is left alone.
pub open spec fn spec_rebuild_grub_line(line: Seq<char>, newval: Seq<char>) -> Seq<char> {
    if grub_eq_pos(line) == line.len() {
        line
    } else {
        line.subrange(0, grub_eq_pos(line) + 1).push(grub_quote(line)) + newval + seq![
            grub_quote(line),
        ]
    }
}

/// Splits a GRUB assignment into its value and quote character.
fn split_grub_line(line: &str) -> (r: Option<(String, char)>)
    ensures
        match r {
            Some(vq) => grub_eq_pos(line@) < line@.len() && vq.0@ == grub_value(line@) && vq.1
                == grub_quote(line@),
            None => grub_eq_pos(line@) == line@.len(),
        },
{
    let n = line.unicode_len();
    let eq = text::find_char(line, '=');
    if eq == n {
        return None;
    }
    let chars = text::chars_of(line);
    let ghost raw = line@.subrange(eq + 1 as int, n as int);
    assert(raw.len() == n - eq - 1);
    if eq + 1 < n && (chars[eq + 1] == '"' || chars[eq + 1] == '\'') {
        let q = chars[eq + 1];
        assert(raw[0] == q);
        let ghost x = raw.drop_first();
        assert(x =~= line@.subrange(eq + 2 as int, n as int));
        if n > eq + 2 && chars[n - 1] == q {
            assert(x.len() > 0 && x.last() == raw[0]);
            let v = text::substring_of(line, eq + 2, n - 1);
            assert(v@ =~= x.drop_last());
            Some((v, q))
        } else {
            let v = text::substring_of(line, eq + 2, n);
            Some((v, q))
        }
    } else {
        let v = text::substring_of(line, eq + 1, n);
        assert(v@ =~= raw);
        Some((v, '"'))
    }
}

/// Rebuilds the assignment around a new value.
fn rebuild_grub_line(line: &str, quote: char, newval: &str) -> (r: String)
    requires
        grub_eq_pos(line@) < line@.len(),
        quote == grub_quote(line@),
    ensures
        r@ == spec_rebuild_grub_line(line@, newval@),
{
    let n = line.unicode_len();
    let eq = text::find_char(line, '=');
    assert(eq < n);
    let mut out = text::substring_of(line, 0, eq + 1);
    text::push_char(&mut out, quote);
    out.append(newval);
    text::push_char(&mut out, quote);
    proof {
        assert(out@ =~= spec_rebuild_grub_line(line@, newval@));
    }
    out
}

/// The GRUB assignment with parameters added into its value.
pub open spec fn spec_grub_line_added(line: Seq<char>, ps: Seq<Seq<char>>) -> Seq<char> {
    spec_rebuild_grub_line(line, spec_add_params_to_value(grub_value(line), ps))
}

/// The GRUB assignment with parameter names removed from its value.
pub open spec fn spec_grub_line_removed(line: Seq<char>, names: Seq<Seq<char>>) -> Seq<char> {
    spec_rebuild_grub_line(line, spec_remove_params_from_value(grub_value(line), names))
}

/// Parses a GRUB assignment, adds the parameters to its value, and
/// reconstructs the line with its quote style kept.
pub fn modify_grub_cmdline_add(line: &str, params: &Vec<String>) -> (r: String)
    ensures
        grub_eq_pos(line@) < line@.len() ==> r@ == spec_grub_line_added(
            line@,
            text::views_of(params@),
        ),
        grub_eq_pos(line@) == line@.len() ==> r@ == line@,
{
    match split_grub_line(line) {
        Some(vq) => {
            let newval = add_params_to_value(vq.0.as_str(), params);
            rebuild_grub_line(line, vq.1, newval.as_str())
        },
        None => line.to_owned(),
    }
}

/// Parses a GRUB assignment, removes the parameter names from its value,
/// and reconstructs the line with its quote style kept.
pub fn modify_grub_cmdline_remove(line: &str, param_names: &Vec<String>) -> (r: String)
    ensures
        grub_eq_pos(line@) < line@.len() ==> r@ == spec_grub_line_removed(
            line@,
            text::views_of(param_names@),
        ),
        grub_eq_pos(line@) == line@.len() ==> r@ == line@,
{
    match split_grub_line(line) {
        Some(vq) => {
            let newval = remove_params_from_value(vq.0.as_str(), param_names);
            rebuild_grub_line(line, vq.1, newval.as_str())
        },
        None => line.to_owned(),
    }
}

// ---------------------------------------------------------------------------
// Whole-file contents
// ---------------------------------------------------------------------------

/// `new_content` with the original's trailing-newline presence preserved.
pub open spec fn spec_preserve_newline(new_content: Seq<char>, original: Seq<char>) -> Seq<
    char,
> {
    if original.len() > 0 && original.last() == '\n' {
        new_content.push('\n')
    } else {
        new_content
    }
}

/// Executable mirror of [`spec_preserve_newline`].
pub fn preserve_newline(new_content: &str, original_content: &str) -> (r: String)
    ensures
        r@ == spec_preserve_newline(new_content@, original_content@),
{
    let n = original_content.unicode_len();
    if n > 0 && original_content.get_char(n - 1) == '\n' {
        let mut out = new_content.to_owned();
        text::push_char(&mut out, '\n');
        out
    } else {
        new_content.to_owned()
    }
}

/// How one line transforms when parameters are added: an `options` line
/// takes them, every other line is kept.
pub open spec fn line_added(l: Seq<char>, ps: Seq<Seq<char>>) -> Seq<char> {
    if text::has_prefix(l, "options"@) {
        spec_add_params_to_line(l, ps)
    } else {
        l
    }
}

/// Whether any line carries the `options` marker at column zero.
pub open spec fn has_options_line(lines: Seq<Seq<char>>) -> bool {
    exists|i: int| 0 <= i < lines.len() && text::has_prefix(#[trigger] lines[i], "options"@)
}

/// Every `options` line transformed, other lines kept.
pub open spec fn spec_content_added(content: Seq<char>, ps: Seq<Seq<char>>) -> Seq<char> {
    let lines = text::split_lines_seq(content);
    let mapped = lines.map_values(|l: Seq<char>| line_added(l, ps));
    spec_preserve_newline(text::join_seq(mapped, "\n"@), content)
}

/// Transforms a systemd-boot entry: parameters are added to its `options`
/// line. Fails exactly when the content has no such line.
pub fn build_content_with_added_params(
    content: &str,
    path: &str,
    params: &Vec<String>,
) -> (r: Result<String, Error>)
    ensures
        match r {
            Ok(s) => has_options_line(text::split_lines_seq(content@)) && s@
                == spec_content_added(content@, text::views_of(params@)),
            Err(e) => !has_options_line(text::split_lines_seq(content@)) && e is Bootloader,
        },
{
    let lines = text::split_lines(content);
    let ghost lv = text::split_lines_seq(content@);
    let ghost ps = text::views_of(params@);
    let ghost mapped_spec = lv.map_values(|l: Seq<char>| line_added(l, ps));
    let mut new_lines: Vec<String> = Vec::new();
    let mut options_found: bool = false;
    assert(text::views_of(new_lines@) =~= mapped_spec.subrange(0, 0));
    let mut i: usize = 0;
    while i < lines.len()
        invariant
            i <= lines@.len(),
            lv == text::views_of(lines@),
            ps == text::views_of(params@),
            mapped_spec == lv.map_values(|l: Seq<char>| line_added(l, ps)),
            text::views_of(new_lines@) == mapped_spec.subrange(0, i as int),
            options_found == exists|q: int|
                0 <= q < i && text::has_prefix(#[trigger] lv[q], "options"@),
        decreases lines@.len() - i,
    {
        let ghost before = text::views_of(new_lines@);
        if text::starts_with(lines[i].as_str(), "options") {
            options_found = true;
            new_lines.push(add_params_to_line(lines[i].as_str(), params));
        } else {
            new_lines.push(lines[i].clone());
        }
        assert(text::views_of(new_lines@) =~= before.push(mapped_spec[i as int]));
        assert(text::views_of(new_lines@) =~= mapped_spec.subrange(0, i + 1));
        i = i + 1;
    }
    if !options_found {
        let mut msg = "no 'options' line found in ".to_owned();
        msg.append(path);
        return Err(Error::Bootloader(msg));
    }
    assert(mapped_spec.subrange(0, lines@.len() as int) =~= mapped_spec);
    let joined = text::join(&new_lines, "\n");
    Ok(preserve_newline(joined.as_str(), content))
}

/// How one line transforms when parameter names are removed.
pub open spec fn line_removed(l: Seq<char>, names: Seq<Seq<char>>) -> Seq<char> {
    if text::has_prefix(l, "options"@) {
        spec_remove_params_from_line(l, names)
    } else {
        l
    }
}

/// Every `options` line with the parameter names removed, other lines
/// kept.
pub open spec fn spec_content_removed(content: Seq<char>, names: Seq<Seq<char>>) -> Seq<char> {
    let lines = text::split_lines_seq(content);
    let mapped = lines.map_values(|l: Seq<char>| line_removed(l, names));
    spec_preserve_newline(text::join_seq(mapped, "\n"@), content)
}

/// Transforms a systemd-boot entry: parameter names are dropped from its
/// `options` line.
pub fn build_content_with_removed_params(content: &str, param_names: &Vec<String>) -> (r:
    String)
    ensures
        r@ == spec_content_removed(content@, text::views_of(param_names@)),
{
    let lines = text::split_lines(content);
    let ghost lv = text::split_lines_seq(content@);
    let ghost names = text::views_of(param_names@);
    let ghost mapped_spec = lv.map_values(|l: Seq<char>| line_removed(l, names));
    let mut new_lines: Vec<String> = Vec::new();
    assert(text::views_of(new_lines@) =~= mapped_spec.subrange(0, 0));
    let mut i: usize = 0;
    while i < lines.len()
        invariant
            i <= lines@.len(),
            lv == text::views_of(lines@),
            names == text::views_of(param_names@),
            mapped_spec == lv.map_values(|l: Seq<char>| line_removed(l, names)),
            text::views_of(new_lines@) == mapped_spec.subrange(0, i as int),
        decreases lines@.len() - i,
    {
        let ghost before = text::views_of(new_lines@);
        if text::starts_with(lines[i].as_str(), "options") {
            new_lines.push(remove_params_from_line(lines[i].as_str(), param_names));
        } else {
            new_lines.push(lines[i].clone());
        }
        assert(text::views_of(new_lines@) =~= before.push(mapped_spec[i as int]));
        assert(text::views_of(new_lines@) =~= mapped_spec.subrange(0, i + 1));
        i = i + 1;
    }
    assert(mapped_spec.subrange(0, lines@.len() as int) =~= mapped_spec);
    let joined = text::join(&new_lines, "\n");
    preserve_newline(joined.as_str(), content)
}

/// How one line transforms when parameters are added to a GRUB file.
pub open spec fn grub_line_step_added(l: Seq<char>, ps: Seq<Seq<char>>) -> Seq<char> {
    if spec_is_grub_cmdline_line(l) {
        spec_grub_line_added(l, ps)
    } else {
        l
    }
}

/// Whether any line is the GRUB command-line assignment.
pub open spec fn has_grub_cmdline(lines: Seq<Seq<char>>) -> bool {
    exists|i: int| 0 <= i < lines.len() && spec_is_grub_cmdline_line(#[trigger] lines[i])
}

/// Every GRUB command-line assignment transformed, other lines kept.
pub open spec fn spec_grub_content_added(content: Seq<char>, ps: Seq<Seq<char>>) -> Seq<char> {
    let lines = text::split_lines_seq(content);
    let mapped = lines.map_values(|l: Seq<char>| grub_line_step_added(l, ps));
    spec_preserve_newline(text::join_seq(mapped, "\n"@), content)
}

/// A `GRUB_CMDLINE_LINUX_DEFAULT` line always carries an `=`.
proof fn lemma_grub_line_has_eq(l: Seq<char>)
    requires
        spec_is_grub_cmdline_line(l),
    ensures
        grub_eq_pos(l) < l.len(),
{
    let t = text::trim_front(l);
    lemma_trim_front_is_suffix(l);
    let off = l.len() - t.len();
    assert(l[off + "GRUB_CMDLINE_LINUX_DEFAULT"@.len()] == '=');
    lemma_find_char_finds(l, 0, '=');
}

/// [`text::trim_front`] yields a suffix of its input.
proof fn lemma_trim_front_is_suffix(l: Seq<char>)
    ensures
        text::trim_front(l).len() <= l.len(),
        text::trim_front(l) =~= l.subrange(
            l.len() - text::trim_front(l).len(),
            l.len() as int,
        ),
    decreases l.len(),
{
    if l.len() > 0 && text::is_space_char(l[0]) {
        lemma_trim_front_is_suffix(l.drop_first());
        let t = text::trim_front(l);
        assert(l.drop_first().subrange(
            l.drop_first().len() - t.len(),
            l.drop_first().len() as int,
        ) =~= l.subrange(l.len() - t.len(), l.len() as int));
    } else {
        assert(l =~= l.subrange(0, l.len() as int));
    }
}

/// When some position holds `c`, the find fold lands at or before it.
proof fn lemma_find_char_finds(s: Seq<char>, i: int, c: char)
    requires
        0 <= i <= s.len(),
        exists|j: int| i <= j < s.len() && s[j] == c,
    ensures
        text::find_char_from(s, i, c) < s.len(),
    decreases s.len() - i,
{
    if i < s.len() && s[i] != c {
        lemma_find_char_finds(s, i + 1, c);
    }
}

/// Transforms a GRUB default file: parameters are added into the
/// `GRUB_CMDLINE_LINUX_DEFAULT` value. Fails exactly when the content has
/// no such assignment.
pub fn build_grub_content_with_added_params(content: &str, params: &Vec<String>) -> (r: Result<
    String,
    Error,
>)
    ensures
        match r {
            Ok(s) => has_grub_cmdline(text::split_lines_seq(content@)) && s@
                == spec_grub_content_added(content@, text::views_of(params@)),
            Err(e) => !has_grub_cmdline(text::split_lines_seq(content@)) && e is Bootloader,
        },
{
    let lines = text::split_lines(content);
    let ghost lv = text::split_lines_seq(content@);
    let ghost ps = text::views_of(params@);
    let ghost mapped_spec = lv.map_values(|l: Seq<char>| grub_line_step_added(l, ps));
    let mut new_lines: Vec<String> = Vec::new();
    let mut found: bool = false;
    assert(text::views_of(new_lines@) =~= mapped_spec.subrange(0, 0));
    let mut i: usize = 0;
    while i < lines.len()
        invariant
            i <= lines@.len(),
            lv == text::views_of(lines@),
            ps == text::views_of(params@),
            mapped_spec == lv.map_values(|l: Seq<char>| grub_line_step_added(l, ps)),
            text::views_of(new_lines@) == mapped_spec.subrange(0, i as int),
            found == exists|q: int| 0 <= q < i && spec_is_grub_cmdline_line(#[trigger] lv[q]),
        decreases lines@.len() - i,
    {
        let ghost before = text::views_of(new_lines@);
        if is_grub_cmdline_line(lines[i].as_str()) {
            found = true;
            proof {
                lemma_grub_line_has_eq(lv[i as int]);
            }
            new_lines.push(modify_grub_cmdline_add(lines[i].as_str(), params));
        } else {
            new_lines.push(lines[i].clone());
        }
        assert(text::views_of(new_lines@) =~= before.push(mapped_spec[i as int]));
        assert(text::views_of(new_lines@) =~= mapped_spec.subrange(0, i + 1));
        i = i + 1;
    }
    if !found {
        return Err(
            Error::Bootloader(
                "no GRUB_CMDLINE_LINUX_DEFAULT line found in GRUB config".to_owned(),
            ),
        );
    }
    assert(mapped_spec.subrange(0, lines@.len() as int) =~= mapped_spec);
    let joined = text::join(&new_lines, "\n");
    Ok(preserve_newline(joined.as_str(), content))
}

/// How one line transforms when parameter names are removed from a GRUB
/// file.
pub open spec fn grub_line_step_removed(l: Seq<char>, names: Seq<Seq<char>>) -> Seq<char> {
    if spec_is_grub_cmdline_line(l) {
        spec_grub_line_removed(l, names)
    } else {
        l
    }
}

/// Every GRUB command-line assignment with names removed, other lines
/// kept.
pub open spec fn spec_grub_content_removed(content: Seq<char>, names: Seq<Seq<char>>) -> Seq<
    char,
> {
    let lines = text::split_lines_seq(content);
    let mapped = lines.map_values(|l: Seq<char>| grub_line_step_removed(l, names));
    spec_preserve_newline(text::join_seq(mapped, "\n"@), content)
}

/// Transforms a GRUB default file: parameter names are removed from the
/// `GRUB_CMDLINE_LINUX_DEFAULT` value.
pub fn build_grub_content_with_removed_params(content: &str, param_names: &Vec<String>) -> (r:
    String)
    ensures
        r@ == spec_grub_content_removed(content@, text::views_of(param_names@)),
{
    let lines = text::split_lines(content);
    let ghost lv = text::split_lines_seq(content@);
    let ghost names = text::views_of(param_names@);
    let ghost mapped_spec = lv.map_values(|l: Seq<char>| grub_line_step_removed(l, names));
    let mut new_lines: Vec<String> = Vec::new();
    assert(text::views_of(new_lines@) =~= mapped_spec.subrange(0, 0));
    let mut i: usize = 0;
    while i < lines.len()
        invariant
            i <= lines@.len(),
            lv == text::views_of(lines@),
            names == text::views_of(param_names@),
            mapped_spec == lv.map_values(|l: Seq<char>| grub_line_step_removed(l, names)),
            text::views_of(new_lines@) == mapped_spec.subrange(0, i as int),
        decreases lines@.len() - i,
    {
        let ghost before = text::views_of(new_lines@);
        if is_grub_cmdline_line(lines[i].as_str()) {
            proof {
                lemma_grub_line_has_eq(lv[i as int]);
            }
            new_lines.push(modify_grub_cmdline_remove(lines[i].as_str(), param_names));
        } else {
            new_lines.push(lines[i].clone());
        }
        assert(text::views_of(new_lines@) =~= before.push(mapped_spec[i as int]));
        assert(text::views_of(new_lines@) =~= mapped_spec.subrange(0, i + 1));
        i = i + 1;
    }
    assert(mapped_spec.subrange(0, lines@.len() as int) =~= mapped_spec);
    let joined = text::join(&new_lines, "\n");
    preserve_newline(joined.as_str(), content)
}

// ---------------------------------------------------------------------------
// File-level editing over the filesystem model
// ---------------------------------------------------------------------------

/// Appending different tails to one prefix gives different sequences.
proof fn lemma_append_ne(p: Seq<char>, a: Seq<char>, b: Seq<char>)
    requires
        a != b,
    ensures
        p + a != p + b,
{
    if p + a == p + b {
        assert((p + a).len() == (p + b).len());
        assert(a.len() == b.len());
        assert forall|k: int| 0 <= k < a.len() implies a[k] == b[k] by {
            assert((p + a)[p.len() + k] == a[k]);
            assert((p + b)[p.len() + k] == b[k]);
        }
        assert(a =~= b);
    }
}

/// Relative entry paths of the `.conf` files among the listed names.
pub open spec fn conf_rels_from(
    names: Seq<Seq<char>>,
    dir: Seq<char>,
    i: int,
    acc: Seq<Seq<char>>,
) -> Seq<Seq<char>>
    decreases names.len() - i,
{
    if i < 0 || i >= names.len() {
        acc
    } else if text::has_suffix(names[i], ".conf"@) {
        conf_rels_from(names, dir, i + 1, acc.push(dir + seq!['/'] + names[i]))
    } else {
        conf_rels_from(names, dir, i + 1, acc)
    }
}

/// The `.conf` entries of the detected boot-entry directory.
pub open spec fn conf_rels_of(fsv: SysfsRoot, dir: Seq<char>) -> Seq<Seq<char>> {
    conf_rels_from(fsv.listing(fsv.full(dir)), dir, 0, Seq::empty())
}

/// The `.conf` entry files in the given directory, as paths relative to
/// the root. Fails exactly when the directory cannot be listed.
pub fn list_entry_files(fs: &SysfsRoot, entries_dir: &str) -> (r: Result<Vec<String>, Error>)
    ensures
        match r {
            Ok(v) => fs.dir_present(fs.full(entries_dir@)) && text::views_of(v@)
                == conf_rels_of(*fs, entries_dir@) && forall|a: int, b: int|
                0 <= a < b < v@.len() ==> text::views_of(v@)[a] != text::views_of(v@)[b],
            Err(e) => !fs.dir_present(fs.full(entries_dir@)) && e is Bootloader,
        },
{
    let names = match fs.list_dir(entries_dir) {
        Ok(n) => n,
        Err(_) => {
            return Err(Error::Bootloader("failed to read entries dir".to_owned()));
        },
    };
    let ghost nv = text::views_of(names@);
    let ghost dirv = entries_dir@;
    let mut out: Vec<String> = Vec::new();
    assert(text::views_of(out@) =~= Seq::<Seq<char>>::empty());
    proof {
        reveal_strlit("/");
        assert("/"@ =~= seq!['/']);
    }
    let mut i: usize = 0;
    while i < names.len()
        invariant
            i <= names@.len(),
            nv == text::views_of(names@),
            dirv == entries_dir@,
            forall|a: int, b: int| 0 <= a < b < nv.len() ==> nv[a] != nv[b],
            "/"@ == seq!['/'],
            conf_rels_from(nv, dirv, 0, Seq::empty()) == conf_rels_from(
                nv,
                dirv,
                i as int,
                text::views_of(out@),
            ),
            forall|k: int|
                0 <= k < out@.len() ==> exists|j: int|
                    0 <= j < i && #[trigger] text::views_of(out@)[k] == dirv + seq!['/']
                        + #[trigger] nv[j],
            forall|a: int, b: int|
                0 <= a < b < out@.len() ==> text::views_of(out@)[a] != text::views_of(out@)[b],
        decreases names@.len() - i,
    {
        if text::ends_with(names[i].as_str(), ".conf") {
            let rel = text::concat3(entries_dir, "/", names[i].as_str());
            let ghost before = text::views_of(out@);
            proof {
                assert(rel@ =~= dirv + seq!['/'] + nv[i as int]);
                assert forall|k: int| 0 <= k < before.len() implies before[k] != rel@ by {
                    let j = choose|j: int|
                        0 <= j < i && before[k] == dirv + seq!['/'] + #[trigger] nv[j];
                    lemma_append_ne(dirv + seq!['/'], nv[j], nv[i as int]);
                }
            }
            out.push(rel);
            assert(text::views_of(out@) =~= before.push(dirv + seq!['/'] + nv[i as int]));
        }
        i = i + 1;
    }
    Ok(out)
}

/// Whether `p` is the full path of one of the relative entry paths.
pub open spec fn among_fulls(root: Seq<char>, rels: Seq<Seq<char>>, p: Seq<char>) -> bool {
    exists|j: int| 0 <= j < rels.len() && p == crate::fs::path_join(root, #[trigger] rels[j])
}

/// The backups an apply over these entries must capture: for every entry
/// whose content the transformation changes, its full path and exact prior
/// content, in entry order.
pub open spec fn expected_backups_rels(
    fsv: SysfsRoot,
    rels: Seq<Seq<char>>,
    ps: Seq<Seq<char>>,
    i: int,
    acc: Seq<BackupView>,
) -> Seq<BackupView>
    decreases rels.len() - i,
{
    if i < 0 || i >= rels.len() {
        acc
    } else {
        match fsv.lookup_rel(rels[i]) {
            Some(c) => if spec_content_added(c, ps) != c {
                expected_backups_rels(
                    fsv,
                    rels,
                    ps,
                    i + 1,
                    acc.push(
                        BackupView { path: crate::fs::path_join(fsv.root@, rels[i]), content: c },
                    ),
                )
            } else {
                expected_backups_rels(fsv, rels, ps, i + 1, acc)
            },
            None => expected_backups_rels(fsv, rels, ps, i + 1, acc),
        }
    }
}

/// What a successful systemd-boot apply guarantees: every entry was
/// readable, every entry now holds its transformed content, nothing else
/// moved, and the backups are exactly the prior contents of the entries
/// the transformation changed.
pub open spec fn sdboot_applied(
    oldfs: SysfsRoot,
    newfs: SysfsRoot,
    dir: Seq<char>,
    ps: Seq<Seq<char>>,
    bks: Seq<BackupView>,
) -> bool {
    let rels = conf_rels_of(oldfs, dir);
    &&& rels.len() > 0
    &&& forall|j: int| 0 <= j < rels.len() ==> oldfs.lookup_rel(#[trigger] rels[j]) is Some
    &&& bks == expected_backups_rels(oldfs, rels, ps, 0, Seq::empty())
    &&& forall|j: int|
        0 <= j < rels.len() ==> newfs.lookup_rel(#[trigger] rels[j]) == Some(
            spec_content_added(oldfs.lookup_rel(rels[j])->0, ps),
        )
    &&& forall|p: Seq<char>|
        !among_fulls(oldfs.root@, rels, p) ==> #[trigger] newfs.lookup(p) == oldfs.lookup(p)
}

/// The editor's own preconditions for a systemd-boot apply: the entry
/// directory exists with at least one `.conf` entry, every entry is
/// readable and carries an `options` line, and every entry the
/// transformation changes accepts writes. When these hold, success is
/// owed.
pub open spec fn sdboot_can_apply(fsv: SysfsRoot, dir: Seq<char>, ps: Seq<Seq<char>>) -> bool {
    let rels = conf_rels_of(fsv, dir);
    &&& fsv.dir_present(fsv.full(dir))
    &&& rels.len() > 0
    &&& forall|j: int| 0 <= j < rels.len() ==> fsv.lookup_rel(#[trigger] rels[j]) is Some
    &&& forall|j: int|
        0 <= j < rels.len() ==> !fsv.is_read_protected(
            crate::fs::path_join(fsv.root@, #[trigger] rels[j]),
        )
    &&& forall|j: int|
        0 <= j < rels.len() ==> has_options_line(
            text::split_lines_seq(fsv.lookup_rel(#[trigger] rels[j])->0),
        )
    &&& forall|j: int|
        0 <= j < rels.len() && spec_content_added(fsv.lookup_rel(#[trigger] rels[j])->0, ps)
            != fsv.lookup_rel(rels[j])->0 ==> !fsv.is_protected(
            crate::fs::path_join(fsv.root@, rels[j]),
        )
}

/// Rewrites every captured backup, bringing the tree back to the state
/// the backups were taken from: divergence is confined to captured,
/// writable paths, so every write lands.
fn restore_captured(
    fs: &mut SysfsRoot,
    backups: &Vec<KernelParamBackup>,
    Ghost(oldfs): Ghost<SysfsRoot>,
)
    requires
        old(fs).wf(),
        old(fs).root == oldfs.root,
        old(fs).links == oldfs.links,
        old(fs).dirs == oldfs.dirs,
        old(fs).write_protected == oldfs.write_protected,
        old(fs).read_protected == oldfs.read_protected,
        forall|k: int|
            0 <= k < backups@.len() ==> oldfs.lookup(#[trigger] backups@[k]@.path) == Some(
                backups@[k]@.content,
            ),
        forall|p: Seq<char>|
            (forall|k: int| 0 <= k < backups@.len() ==> #[trigger] backups@[k]@.path != p)
                ==> #[trigger] old(fs).lookup(p) == oldfs.lookup(p),
        forall|p: Seq<char>|
            #[trigger] old(fs).lookup(p) != oldfs.lookup(p) ==> !oldfs.is_protected(p),
    ensures
        final(fs).wf(),
        final(fs).root == oldfs.root,
        final(fs).links == oldfs.links,
        final(fs).dirs == oldfs.dirs,
        final(fs).write_protected == oldfs.write_protected,
        final(fs).read_protected == oldfs.read_protected,
        forall|p: Seq<char>| #[trigger] final(fs).lookup(p) == oldfs.lookup(p),
{
    let mut t: usize = 0;
    while t < backups.len()
        invariant
            t <= backups@.len(),
            fs.wf(),
            fs.root == oldfs.root,
            fs.links == oldfs.links,
            fs.dirs == oldfs.dirs,
            fs.write_protected == oldfs.write_protected,
            fs.read_protected == oldfs.read_protected,
            forall|k: int|
                0 <= k < backups@.len() ==> oldfs.lookup(#[trigger] backups@[k]@.path) == Some(
                    backups@[k]@.content,
                ),
            forall|p: Seq<char>|
                #[trigger] fs.lookup(p) != oldfs.lookup(p) ==> !oldfs.is_protected(p),
            forall|p: Seq<char>|
                #[trigger] fs.lookup(p) != oldfs.lookup(p) ==> exists|k: int|
                    t <= k < backups@.len() && #[trigger] backups@[k]@.path == p,
        decreases backups@.len() - t,
    {
        let ghost pre = *fs;
        let outcome = fs.write_full(
            backups[t].path.as_str(),
            backups[t].original_content.as_str(),
        );
        proof {
            let bp = backups@[t as int]@.path;
            if outcome is Err {
                assert(*fs == pre);
                assert(oldfs.is_protected(bp));
                assert(pre.lookup(bp) == oldfs.lookup(bp));
            }
            assert forall|p: Seq<char>| #[trigger] fs.lookup(p) != oldfs.lookup(p) implies (
            !oldfs.is_protected(p) && exists|k: int|
                t + 1 <= k < backups@.len() && #[trigger] backups@[k]@.path == p) by {
                if outcome is Ok {
                    if p == bp {
                        assert(fs.lookup(p) == Some(backups@[t as int]@.content));
                    } else {
                        assert(fs.lookup(p) == pre.lookup(p));
                    }
                } else {
                    assert(fs.lookup(p) == pre.lookup(p));
                }
                assert(pre.lookup(p) != oldfs.lookup(p));
                let k = choose|k: int|
                    t <= k < backups@.len() && #[trigger] backups@[k]@.path == p;
                assert(p != bp);
                assert(k > t);
            }
        }
        t = t + 1;
    }
}

/// Adds kernel parameters to every systemd-boot entry under `entries_dir`,
/// capturing a byte-exact backup of each file before changing it. When
/// any step fails, every backup captured by this call is restored before
/// the error returns, so a failed apply leaves the tree exactly as it
/// found it. Success is owed whenever the editor's own preconditions
/// hold.
pub fn add_kernel_params_systemd_boot(
    fs: &mut SysfsRoot,
    entries_dir: &str,
    params: &Vec<String>,
) -> (r: Result<Vec<KernelParamBackup>, Error>)
    requires
        old(fs).wf(),
    ensures
        final(fs).wf(),
        final(fs).root == old(fs).root,
        final(fs).links == old(fs).links,
        final(fs).dirs == old(fs).dirs,
        final(fs).write_protected == old(fs).write_protected,
        final(fs).read_protected == old(fs).read_protected,
        match r {
            Ok(b) => sdboot_applied(
                *old(fs),
                *final(fs),
                entries_dir@,
                text::views_of(params@),
                crate::journal::backups_view(b@),
            ),
            Err(e) => e is Bootloader,
        },
        r is Err ==> forall|p: Seq<char>|
            #[trigger] final(fs).lookup(p) == old(fs).lookup(p),
        sdboot_can_apply(*old(fs), entries_dir@, text::views_of(params@)) ==> r is Ok,
{
    let ghost ps = text::views_of(params@);
    if !fs.path_exists(entries_dir) {
        proof {
            if old(fs).dir_present(old(fs).full(entries_dir@)) {
                crate::fs::lemma_dir_present_implies_present(fs, old(fs).full(entries_dir@));
            }
        }
        return Err(Error::Bootloader("systemd-boot entries directory not found".to_owned()));
    }
    let entries = match list_entry_files(fs, entries_dir) {
        Ok(v) => v,
        Err(e) => {
            return Err(e);
        },
    };
    if entries.len() == 0 {
        return Err(Error::Bootloader("no .conf files found in entries directory".to_owned()));
    }
    let ghost rels = conf_rels_of(*fs, entries_dir@);
    let ghost oldfs = *fs;
    let mut backups: Vec<KernelParamBackup> = Vec::new();
    assert(crate::journal::backups_view(backups@) =~= Seq::<BackupView>::empty());
    let mut k: usize = 0;
    while k < entries.len()
        invariant
            k <= entries@.len(),
            oldfs == *old(fs),
            fs.wf(),
            fs.root == oldfs.root,
            fs.links == oldfs.links,
            fs.dirs == oldfs.dirs,
            fs.write_protected == oldfs.write_protected,
            fs.read_protected == oldfs.read_protected,
            oldfs.wf(),
            rels == text::views_of(entries@),
            rels == conf_rels_of(oldfs, entries_dir@),
            rels.len() > 0,
            ps == text::views_of(params@),
            forall|a: int, b: int| 0 <= a < b < rels.len() ==> rels[a] != rels[b],
            forall|j: int| 0 <= j < k ==> oldfs.lookup_rel(#[trigger] rels[j]) is Some,
            forall|j: int|
                0 <= j < k ==> fs.lookup_rel(#[trigger] rels[j]) == Some(
                    spec_content_added(oldfs.lookup_rel(rels[j])->0, ps),
                ),
            forall|p: Seq<char>|
                !among_fulls(oldfs.root@, rels.subrange(0, k as int), p)
                    ==> #[trigger] fs.lookup(p) == oldfs.lookup(p),
            forall|t: int|
                0 <= t < backups@.len() ==> oldfs.lookup(#[trigger] backups@[t]@.path) == Some(
                    backups@[t]@.content,
                ),
            forall|p: Seq<char>|
                (forall|t: int| 0 <= t < backups@.len() ==> #[trigger] backups@[t]@.path != p)
                    ==> #[trigger] fs.lookup(p) == oldfs.lookup(p),
            forall|p: Seq<char>|
                #[trigger] fs.lookup(p) != oldfs.lookup(p) ==> !oldfs.is_protected(p),
            expected_backups_rels(oldfs, rels, ps, 0, Seq::empty()) == expected_backups_rels(
                oldfs,
                rels,
                ps,
                k as int,
                crate::journal::backups_view(backups@),
            ),
        decreases entries@.len() - k,
    {
        proof {
            assert(!among_fulls(
                oldfs.root@,
                rels.subrange(0, k as int),
                crate::fs::path_join(oldfs.root@, rels[k as int]),
            )) by {
                if among_fulls(
                    oldfs.root@,
                    rels.subrange(0, k as int),
                    crate::fs::path_join(oldfs.root@, rels[k as int]),
                ) {
                    let j = choose|j: int|
                        0 <= j < k && crate::fs::path_join(oldfs.root@, rels[k as int])
                            == crate::fs::path_join(oldfs.root@, #[trigger] rels.subrange(
                            0,
                            k as int,
                        )[j]);
                    if oldfs.root@.len() > 0 && oldfs.root@[oldfs.root@.len() - 1] == '/' {
                        lemma_append_ne(oldfs.root@, rels[j], rels[k as int]);
                    } else {
                        lemma_append_ne(oldfs.root@ + seq!['/'], rels[j], rels[k as int]);
                    }
                }
            }
        }
        let content = match fs.read_raw(entries[k].as_str()) {
            Ok(c) => c,
            Err(_) => {
                proof {
                    assert(oldfs.is_read_protected(
                        crate::fs::path_join(oldfs.root@, rels[k as int]),
                    ) || oldfs.lookup_rel(rels[k as int]) is None);
                    assert(!sdboot_can_apply(oldfs, entries_dir@, ps));
                }
                restore_captured(fs, &backups, Ghost(oldfs));
                return Err(Error::Bootloader("failed to read boot entry".to_owned()));
            },
        };
        let full = fs.path(entries[k].as_str());
        let new_content = match build_content_with_added_params(
            content.as_str(),
            full.as_str(),
            params,
        ) {
            Ok(c) => c,
            Err(e) => {
                proof {
                    assert(oldfs.lookup_rel(rels[k as int]) == Some(content@));
                    assert(!sdboot_can_apply(oldfs, entries_dir@, ps));
                }
                restore_captured(fs, &backups, Ghost(oldfs));
                return Err(e);
            },
        };
        let ghost before = crate::journal::backups_view(backups@);
        let ghost fullv = crate::fs::path_join(oldfs.root@, rels[k as int]);
        proof {
            // the two facts the rollback depends on, pinned down while the
            // captured list still matches the loop-entry state
            assert(oldfs.lookup(fullv) == Some(content@));
            assert forall|p: Seq<char>|
                (forall|t: int| 0 <= t < before.len() ==> #[trigger] before[t].path != p)
                    implies fs.lookup(p) == oldfs.lookup(p) by {
                assert forall|t: int|
                    0 <= t < backups@.len() implies #[trigger] backups@[t]@.path != p by {
                    assert(backups@[t]@ == before[t]);
                }
            }
        }
        if !text::str_eq(new_content.as_str(), content.as_str()) {
            backups.push(
                KernelParamBackup { path: full, original_content: content },
            );
            assert(crate::journal::backups_view(backups@) =~= before.push(
                backups@.last()@,
            ));
            proof {
                assert forall|t: int|
                    0 <= t < backups@.len() implies oldfs.lookup(
                    #[trigger] backups@[t]@.path,
                ) == Some(backups@[t]@.content) by {
                    if t < backups@.len() - 1 {
                        assert(backups@[t]@ == before[t]);
                    }
                }
            }
            let ghost pre_write = *fs;
            match fs.write(entries[k].as_str(), new_content.as_str()) {
                Ok(()) => {
                    proof {
                        assert forall|p: Seq<char>|
                            (forall|t: int|
                                0 <= t < backups@.len() ==> #[trigger] backups@[t]@.path
                                    != p) implies #[trigger] fs.lookup(p) == oldfs.lookup(
                            p,
                        ) by {
                            assert(backups@[backups@.len() - 1]@.path != p);
                            assert(p != fullv);
                            assert(fs.lookup(p) == pre_write.lookup(p));
                            assert forall|t: int|
                                0 <= t < before.len() implies #[trigger] before[t].path
                                    != p by {
                                assert(backups@[t]@ == before[t]);
                            }
                        }
                        assert forall|p: Seq<char>|
                            #[trigger] fs.lookup(p) != oldfs.lookup(p) implies !oldfs.is_protected(
                            p,
                        ) by {
                            if p != fullv {
                                assert(fs.lookup(p) == pre_write.lookup(p));
                            }
                        }
                    }
                },
                Err(_) => {
                    proof {
                        assert(oldfs.is_protected(fullv));
                        assert(spec_content_added(oldfs.lookup_rel(rels[k as int])->0, ps)
                            != oldfs.lookup_rel(rels[k as int])->0);
                        assert(!sdboot_can_apply(oldfs, entries_dir@, ps));
                        assert(*fs == pre_write);
                        assert forall|p: Seq<char>|
                            (forall|t: int|
                                0 <= t < backups@.len() ==> #[trigger] backups@[t]@.path
                                    != p) implies #[trigger] fs.lookup(p) == oldfs.lookup(
                            p,
                        ) by {
                            assert forall|t: int|
                                0 <= t < before.len() implies #[trigger] before[t].path
                                    != p by {
                                assert(backups@[t]@ == before[t]);
                            }
                        }
                    }
                    restore_captured(fs, &backups, Ghost(oldfs));
                    return Err(Error::Bootloader("failed to write boot entry".to_owned()));
                },
            }
        }
        proof {
            assert(rels.subrange(0, k + 1).drop_last() =~= rels.subrange(0, k as int));
            assert forall|p: Seq<char>|
                !among_fulls(oldfs.root@, rels.subrange(0, k + 1), p) implies #[trigger] fs.lookup(
                p,
            ) == oldfs.lookup(p) by {
                assert(!among_fulls(oldfs.root@, rels.subrange(0, k as int), p)) by {
                    if among_fulls(oldfs.root@, rels.subrange(0, k as int), p) {
                        let j = choose|j: int|
                            0 <= j < k && p == crate::fs::path_join(
                                oldfs.root@,
                                #[trigger] rels.subrange(0, k as int)[j],
                            );
                        assert(rels.subrange(0, k + 1)[j] == rels[j]);
                    }
                }
                assert(p != crate::fs::path_join(oldfs.root@, rels[k as int])) by {
                    assert(rels.subrange(0, k + 1)[k as int] == rels[k as int]);
                }
            }
            assert forall|j: int|
                0 <= j < k + 1 implies fs.lookup_rel(#[trigger] rels[j]) == Some(
                spec_content_added(oldfs.lookup_rel(rels[j])->0, ps),
            ) by {
                if j < k {
                    assert(fs.lookup_rel(rels[j]) == Some(
                        spec_content_added(oldfs.lookup_rel(rels[j])->0, ps),
                    ));
                }
            }
        }
        k = k + 1;
    }
    proof {
        assert(rels.subrange(0, rels.len() as int) =~= rels);
    }
    Ok(backups)
}

/// The parameter names of a parameter list.
pub open spec fn names_of(ps: Seq<Seq<char>>) -> Seq<Seq<char>> {
    ps.map_values(|p: Seq<char>| tok_name(p))
}

/// The name of every parameter, in order.
pub fn param_names(params: &Vec<String>) -> (r: Vec<String>)
    ensures
        text::views_of(r@) == names_of(text::views_of(params@)),
{
    let ghost ps = text::views_of(params@);
    let mut out: Vec<String> = Vec::new();
    assert(text::views_of(out@) =~= names_of(ps).subrange(0, 0));
    let mut i: usize = 0;
    while i < params.len()
        invariant
            i <= params@.len(),
            ps == text::views_of(params@),
            text::views_of(out@) == names_of(ps).subrange(0, i as int),
        decreases params@.len() - i,
    {
        let ghost before = text::views_of(out@);
        out.push(text::param_name(params[i].as_str()));
        assert(text::views_of(out@) =~= before.push(names_of(ps)[i as int]));
        assert(text::views_of(out@) =~= names_of(ps).subrange(0, i + 1));
        i = i + 1;
    }
    assert(names_of(ps).subrange(0, ps.len() as int) =~= names_of(ps));
    out
}

/// The editor's own preconditions for a systemd-boot removal over an
/// existing entry directory: the directory can be listed, every entry is
/// readable, and every entry the removal changes accepts writes.
pub open spec fn sdboot_can_remove(fsv: SysfsRoot, dir: Seq<char>, names: Seq<Seq<char>>) -> bool {
    let rels = conf_rels_of(fsv, dir);
    &&& fsv.dir_present(fsv.full(dir))
    &&& forall|j: int| 0 <= j < rels.len() ==> fsv.lookup_rel(#[trigger] rels[j]) is Some
    &&& forall|j: int|
        0 <= j < rels.len() ==> !fsv.is_read_protected(
            crate::fs::path_join(fsv.root@, #[trigger] rels[j]),
        )
    &&& forall|j: int|
        0 <= j < rels.len() && spec_content_removed(fsv.lookup_rel(#[trigger] rels[j])->0, names)
            != fsv.lookup_rel(rels[j])->0 ==> !fsv.is_protected(
            crate::fs::path_join(fsv.root@, rels[j]),
        )
}

/// What a successful systemd-boot removal guarantees: every entry was
/// readable, every entry now holds its stripped content, and nothing else
/// moved.
pub open spec fn sdboot_removed(
    oldfs: SysfsRoot,
    newfs: SysfsRoot,
    dir: Seq<char>,
    names: Seq<Seq<char>>,
) -> bool {
    let rels = conf_rels_of(oldfs, dir);
    &&& forall|j: int| 0 <= j < rels.len() ==> oldfs.lookup_rel(#[trigger] rels[j]) is Some
    &&& forall|j: int|
        0 <= j < rels.len() ==> newfs.lookup_rel(#[trigger] rels[j]) == Some(
            spec_content_removed(oldfs.lookup_rel(rels[j])->0, names),
        )
    &&& forall|p: Seq<char>|
        !among_fulls(oldfs.root@, rels, p) ==> #[trigger] newfs.lookup(p) == oldfs.lookup(p)
}

/// Removes the parameters' names from every systemd-boot entry under
/// `entries_dir`; a missing directory means there is nothing to undo.
pub fn remove_kernel_params_systemd_boot(
    fs: &mut SysfsRoot,
    entries_dir: &str,
    params: &Vec<String>,
) -> (r: Result<(), Error>)
    requires
        old(fs).wf(),
    ensures
        final(fs).wf(),
        final(fs).root == old(fs).root,
        final(fs).links == old(fs).links,
        final(fs).dirs == old(fs).dirs,
        final(fs).write_protected == old(fs).write_protected,
        final(fs).read_protected == old(fs).read_protected,
        match r {
            Ok(()) => if old(fs).present(old(fs).full(entries_dir@)) {
                sdboot_removed(
                    *old(fs),
                    *final(fs),
                    entries_dir@,
                    names_of(text::views_of(params@)),
                )
            } else {
                *final(fs) == *old(fs)
            },
            Err(e) => e is Bootloader,
        },
        !old(fs).present(old(fs).full(entries_dir@)) || sdboot_can_remove(
            *old(fs),
            entries_dir@,
            names_of(text::views_of(params@)),
        ) ==> r is Ok,
{
    let ghost nsv = names_of(text::views_of(params@));
    if !fs.path_exists(entries_dir) {
        return Ok(());
    }
    let entries = match list_entry_files(fs, entries_dir) {
        Ok(v) => v,
        Err(e) => {
            return Err(e);
        },
    };
    let names = param_names(params);
    let ghost rels = conf_rels_of(*fs, entries_dir@);
    let ghost oldfs = *fs;
    let mut k: usize = 0;
    while k < entries.len()
        invariant
            k <= entries@.len(),
            oldfs == *old(fs),
            fs.wf(),
            fs.root == oldfs.root,
            fs.links == oldfs.links,
            fs.dirs == oldfs.dirs,
            fs.write_protected == oldfs.write_protected,
            fs.read_protected == oldfs.read_protected,
            oldfs.wf(),
            rels == text::views_of(entries@),
            rels == conf_rels_of(oldfs, entries_dir@),
            oldfs.present(oldfs.full(entries_dir@)),
            nsv == text::views_of(names@),
            nsv == names_of(text::views_of(params@)),
            forall|a: int, b: int| 0 <= a < b < rels.len() ==> rels[a] != rels[b],
            forall|j: int| 0 <= j < k ==> oldfs.lookup_rel(#[trigger] rels[j]) is Some,
            forall|j: int|
                0 <= j < k ==> fs.lookup_rel(#[trigger] rels[j]) == Some(
                    spec_content_removed(oldfs.lookup_rel(rels[j])->0, nsv),
                ),
            forall|p: Seq<char>|
                !among_fulls(oldfs.root@, rels.subrange(0, k as int), p)
                    ==> #[trigger] fs.lookup(p) == oldfs.lookup(p),
        decreases entries@.len() - k,
    {
        proof {
            assert(!among_fulls(
                oldfs.root@,
                rels.subrange(0, k as int),
                crate::fs::path_join(oldfs.root@, rels[k as int]),
            )) by {
                if among_fulls(
                    oldfs.root@,
                    rels.subrange(0, k as int),
                    crate::fs::path_join(oldfs.root@, rels[k as int]),
                ) {
                    let j = choose|j: int|
                        0 <= j < k && crate::fs::path_join(oldfs.root@, rels[k as int])
                            == crate::fs::path_join(oldfs.root@, #[trigger] rels.subrange(
                            0,
                            k as int,
                        )[j]);
                    if oldfs.root@.len() > 0 && oldfs.root@[oldfs.root@.len() - 1] == '/' {
                        lemma_append_ne(oldfs.root@, rels[j], rels[k as int]);
                    } else {
                        lemma_append_ne(oldfs.root@ + seq!['/'], rels[j], rels[k as int]);
                    }
                }
            }
        }
        let content = match fs.read_raw(entries[k].as_str()) {
            Ok(c) => c,
            Err(_) => {
                proof {
                    assert(oldfs.is_read_protected(
                        crate::fs::path_join(oldfs.root@, rels[k as int]),
                    ) || oldfs.lookup_rel(rels[k as int]) is None);
                    assert(!sdboot_can_remove(oldfs, entries_dir@, nsv));
                }
                return Err(Error::Bootloader("failed to read boot entry".to_owned()));
            },
        };
        let new_content = build_content_with_removed_params(content.as_str(), &names);
        if !text::str_eq(new_content.as_str(), content.as_str()) {
            match fs.write(entries[k].as_str(), new_content.as_str()) {
                Ok(()) => {},
                Err(_) => {
                    proof {
                        assert(oldfs.is_protected(
                            crate::fs::path_join(oldfs.root@, rels[k as int]),
                        ));
                        assert(spec_content_removed(oldfs.lookup_rel(rels[k as int])->0, nsv)
                            != oldfs.lookup_rel(rels[k as int])->0);
                        assert(!sdboot_can_remove(oldfs, entries_dir@, nsv));
                    }
                    return Err(Error::Bootloader("failed to write boot entry".to_owned()));
                },
            }
        }
        proof {
            assert forall|p: Seq<char>|
                !among_fulls(oldfs.root@, rels.subrange(0, k + 1), p) implies #[trigger] fs.lookup(
                p,
            ) == oldfs.lookup(p) by {
                assert(!among_fulls(oldfs.root@, rels.subrange(0, k as int), p)) by {
                    if among_fulls(oldfs.root@, rels.subrange(0, k as int), p) {
                        let j = choose|j: int|
                            0 <= j < k && p == crate::fs::path_join(
                                oldfs.root@,
                                #[trigger] rels.subrange(0, k as int)[j],
                            );
                        assert(rels.subrange(0, k + 1)[j] == rels[j]);
                    }
                }
                assert(p != crate::fs::path_join(oldfs.root@, rels[k as int])) by {
                    assert(rels.subrange(0, k + 1)[k as int] == rels[k as int]);
                }
            }
            assert forall|j: int|
                0 <= j < k + 1 implies fs.lookup_rel(#[trigger] rels[j]) == Some(
                spec_content_removed(oldfs.lookup_rel(rels[j])->0, nsv),
            ) by {
                if j < k {
                    assert(fs.lookup_rel(rels[j]) == Some(
                        spec_content_removed(oldfs.lookup_rel(rels[j])->0, nsv),
                    ));
                }
            }
        }
        k = k + 1;
    }
    proof {
        assert(rels.subrange(0, rels.len() as int) =~= rels);
    }
    Ok(())
}

/// The editor's own preconditions for a GRUB apply: the default file is
/// readable, carries the command-line assignment, and accepts writes when
/// the transformation changes it. When these hold, success is owed.
pub open spec fn grub_can_apply(fsv: SysfsRoot, grub_rel: Seq<char>, ps: Seq<Seq<char>>) -> bool {
    let c = fsv.lookup(fsv.full(grub_rel));
    &&& !fsv.is_read_protected(fsv.full(grub_rel))
    &&& c is Some
    &&& has_grub_cmdline(text::split_lines_seq(c->0))
    &&& (spec_grub_content_added(c->0, ps) != c->0 ==> !fsv.is_protected(fsv.full(grub_rel)))
}

/// What a successful GRUB apply guarantees: the default file was readable;
/// it is unchanged when the transformation is a fixed point, else exactly
/// one backup holds its prior bytes and the file holds the transformed
/// content.
pub open spec fn grub_applied(
    oldfs: SysfsRoot,
    newfs: SysfsRoot,
    grub_rel: Seq<char>,
    ps: Seq<Seq<char>>,
    bks: Seq<BackupView>,
) -> bool {
    let full = oldfs.full(grub_rel);
    match oldfs.lookup(full) {
        Some(c) => {
            let c2 = spec_grub_content_added(c, ps);
            if c2 == c {
                bks.len() == 0 && newfs == oldfs
            } else {
                &&& bks == seq![BackupView { path: full, content: c }]
                &&& newfs.lookup(full) == Some(c2)
                &&& forall|p: Seq<char>|
                    p != full ==> #[trigger] newfs.lookup(p) == oldfs.lookup(p)
            }
        },
        None => false,
    }
}

/// Adds kernel parameters to the GRUB default file, capturing one backup
/// when the file changes. Regenerating `grub.cfg` afterwards is the
/// caller's step, since it runs an external process.
pub fn add_kernel_params_grub(
    fs: &mut SysfsRoot,
    grub_rel: &str,
    params: &Vec<String>,
) -> (r: Result<Vec<KernelParamBackup>, Error>)
    requires
        old(fs).wf(),
    ensures
        final(fs).wf(),
        final(fs).root == old(fs).root,
        final(fs).links == old(fs).links,
        final(fs).dirs == old(fs).dirs,
        final(fs).write_protected == old(fs).write_protected,
        final(fs).read_protected == old(fs).read_protected,
        match r {
            Ok(b) => grub_applied(
                *old(fs),
                *final(fs),
                grub_rel@,
                text::views_of(params@),
                crate::journal::backups_view(b@),
            ),
            Err(e) => e is Bootloader && *final(fs) == *old(fs),
        },
        grub_can_apply(*old(fs), grub_rel@, text::views_of(params@)) ==> r is Ok,
{
    let content = match fs.read_raw(grub_rel) {
        Ok(c) => c,
        Err(_) => {
            return Err(Error::Bootloader("failed to read GRUB default file".to_owned()));
        },
    };
    let new_content = match build_grub_content_with_added_params(content.as_str(), params) {
        Ok(c) => c,
        Err(e) => {
            return Err(e);
        },
    };
    if text::str_eq(new_content.as_str(), content.as_str()) {
        let out: Vec<KernelParamBackup> = Vec::new();
        assert(crate::journal::backups_view(out@) =~= Seq::<BackupView>::empty());
        return Ok(out);
    }
    let full = fs.path(grub_rel);
    let mut backups: Vec<KernelParamBackup> = Vec::new();
    backups.push(KernelParamBackup { path: full, original_content: content });
    match fs.write(grub_rel, new_content.as_str()) {
        Ok(()) => {
            proof {
                assert(crate::journal::backups_view(backups@) =~= seq![
                    BackupView { path: old(fs).full(grub_rel@), content: old(fs).lookup(
                        old(fs).full(grub_rel@),
                    )->0 },
                ]);
            }
            Ok(backups)
        },
        Err(_) => Err(Error::Bootloader("failed to write GRUB default file".to_owned())),
    }
}

/// The editor's own preconditions for a GRUB removal over an existing
/// default file: it is readable and accepts writes when the removal
/// changes it.
pub open spec fn grub_can_remove(fsv: SysfsRoot, grub_rel: Seq<char>, names: Seq<Seq<char>>) -> bool {
    let c = fsv.lookup(fsv.full(grub_rel));
    &&& !fsv.is_read_protected(fsv.full(grub_rel))
    &&& c is Some
    &&& (spec_grub_content_removed(c->0, names) != c->0 ==> !fsv.is_protected(fsv.full(grub_rel)))
}

/// What a successful GRUB removal guarantees.
pub open spec fn grub_removed(
    oldfs: SysfsRoot,
    newfs: SysfsRoot,
    grub_rel: Seq<char>,
    names: Seq<Seq<char>>,
    changed: bool,
) -> bool {
    let full = oldfs.full(grub_rel);
    if !oldfs.present(full) {
        !changed && newfs == oldfs
    } else {
        match oldfs.lookup(full) {
            Some(c) => {
                let c2 = spec_grub_content_removed(c, names);
                if c2 == c {
                    !changed && newfs == oldfs
                } else {
                    &&& changed
                    &&& newfs.lookup(full) == Some(c2)
                    &&& forall|p: Seq<char>|
                        p != full ==> #[trigger] newfs.lookup(p) == oldfs.lookup(p)
                }
            },
            None => false,
        }
    }
}

/// Removes the parameters' names from the GRUB default file; reports
/// whether the file changed, so the caller knows to regenerate `grub.cfg`.
pub fn remove_kernel_params_grub(
    fs: &mut SysfsRoot,
    grub_rel: &str,
    params: &Vec<String>,
) -> (r: Result<bool, Error>)
    requires
        old(fs).wf(),
    ensures
        final(fs).wf(),
        final(fs).root == old(fs).root,
        final(fs).links == old(fs).links,
        final(fs).dirs == old(fs).dirs,
        final(fs).write_protected == old(fs).write_protected,
        final(fs).read_protected == old(fs).read_protected,
        match r {
            Ok(changed) => grub_removed(
                *old(fs),
                *final(fs),
                grub_rel@,
                names_of(text::views_of(params@)),
                changed,
            ),
            Err(e) => e is Bootloader && *final(fs) == *old(fs),
        },
        !old(fs).present(old(fs).full(grub_rel@)) || grub_can_remove(
            *old(fs),
            grub_rel@,
            names_of(text::views_of(params@)),
        ) ==> r is Ok,
{
    if !fs.path_exists(grub_rel) {
        return Ok(false);
    }
    let content = match fs.read_raw(grub_rel) {
        Ok(c) => c,
        Err(_) => {
            return Err(Error::Bootloader("failed to read GRUB default file".to_owned()));
        },
    };
    let names = param_names(params);
    let new_content = build_grub_content_with_removed_params(content.as_str(), &names);
    if text::str_eq(new_content.as_str(), content.as_str()) {
        return Ok(false);
    }
    match fs.write(grub_rel, new_content.as_str()) {
        Ok(()) => Ok(true),
        Err(_) => Err(Error::Bootloader("failed to write GRUB default file".to_owned())),
    }
}

/// Restores boot files to the exact content captured before an apply.
/// Every backup is attempted even when some fail; failures surface as one
/// bootloader error, so the operator can retry.
#[verifier::rlimit(100)]
#[verifier::spinoff_prover]
pub fn restore_kernel_param_backups(
    fs: &mut SysfsRoot,
    backups: &Vec<KernelParamBackup>,
) -> (r: Result<(), Error>)
    requires
        old(fs).wf(),
    ensures
        final(fs).wf(),
        final(fs).root == old(fs).root,
        final(fs).links == old(fs).links,
        final(fs).dirs == old(fs).dirs,
        final(fs).write_protected == old(fs).write_protected,
        final(fs).read_protected == old(fs).read_protected,
        r is Ok <==> forall|k: int|
            0 <= k < backups@.len() ==> !old(fs).is_protected(#[trigger] backups@[k]@.path),
        r is Err ==> r->Err_0 is Bootloader,
        forall|k: int|
            0 <= k < backups@.len() && !old(fs).is_protected(#[trigger] backups@[k]@.path) && (
            forall|l: int| k < l < backups@.len() ==> backups@[l]@.path != backups@[k]@.path)
                ==> final(fs).lookup(backups@[k]@.path) == Some(backups@[k]@.content),
        forall|p: Seq<char>|
            (forall|k: int| 0 <= k < backups@.len() ==> #[trigger] backups@[k]@.path != p)
                ==> #[trigger] final(fs).lookup(p) == old(fs).lookup(p),
{
    let ghost oldfs = *old(fs);
    let mut any_failed: bool = false;
    let mut t: usize = 0;
    while t < backups.len()
        invariant
            t <= backups@.len(),
            oldfs == *old(fs),
            fs.wf(),
            fs.root == oldfs.root,
            fs.links == oldfs.links,
            fs.dirs == oldfs.dirs,
            fs.write_protected == oldfs.write_protected,
            fs.read_protected == oldfs.read_protected,
            any_failed == exists|k: int|
                0 <= k < t && oldfs.is_protected(#[trigger] backups@[k]@.path),
            forall|k: int|
                0 <= k < t && !oldfs.is_protected(#[trigger] backups@[k]@.path) && (forall|l: int|
                    k < l < t ==> backups@[l]@.path != backups@[k]@.path) ==> fs.lookup(
                    backups@[k]@.path,
                ) == Some(backups@[k]@.content),
            forall|p: Seq<char>|
                (forall|k: int| 0 <= k < t ==> #[trigger] backups@[k]@.path != p)
                    ==> #[trigger] fs.lookup(p) == oldfs.lookup(p),
        decreases backups@.len() - t,
    {
        let ghost pre = *fs;
        let ok: bool = match fs.write_full(
            backups[t].path.as_str(),
            backups[t].original_content.as_str(),
        ) {
            Ok(()) => true,
            Err(_) => false,
        };
        if !ok {
            any_failed = true;
        }
        proof {
            if !ok {
                assert(oldfs.is_protected(backups@[t as int]@.path));
            }
            assert forall|p: Seq<char>|
                (forall|k: int| 0 <= k < t + 1 ==> #[trigger] backups@[k]@.path != p)
                    implies #[trigger] fs.lookup(p) == oldfs.lookup(p) by {
                assert(backups@[t as int]@.path != p);
                assert(pre.lookup(p) == oldfs.lookup(p));
            }
            assert forall|k: int|
                0 <= k < t + 1 && !oldfs.is_protected(#[trigger] backups@[k]@.path) && (forall|
                    l: int,
                |
                    k < l < t + 1 ==> backups@[l]@.path != backups@[k]@.path) implies fs.lookup(
                backups@[k]@.path,
            ) == Some(backups@[k]@.content) by {
                if k == t {
                    assert(ok);
                } else {
                    assert(backups@[t as int]@.path != backups@[k]@.path);
                    assert(pre.lookup(backups@[k]@.path) == Some(backups@[k]@.content));
                }
            }
        }
        t = t + 1;
    }
    if any_failed {
        return Err(Error::Bootloader("failed to restore boot entries".to_owned()));
    }
    proof {
        assert forall|k: int|
            0 <= k < backups@.len() implies !old(fs).is_protected(
            #[trigger] backups@[k]@.path,
        ) by {}
    }
    Ok(())
}

/// Adds kernel parameters to whichever bootloader is detected. The backups
/// of every changed file come back for the journal; when any of them names
/// the GRUB default file, the caller follows up with the external
/// `grub.cfg` regeneration.
pub fn add_kernel_params(fs: &mut SysfsRoot, params: &Vec<String>) -> (r: Result<
    Vec<KernelParamBackup>,
    Error,
>)
    requires
        old(fs).wf(),
    ensures
        final(fs).wf(),
        final(fs).root == old(fs).root,
        final(fs).links == old(fs).links,
        final(fs).dirs == old(fs).dirs,
        final(fs).write_protected == old(fs).write_protected,
        final(fs).read_protected == old(fs).read_protected,
        match r {
            Ok(b) => if old(fs).present(old(fs).full("boot/loader/entries"@)) {
                sdboot_applied(
                    *old(fs),
                    *final(fs),
                    "boot/loader/entries"@,
                    text::views_of(params@),
                    crate::journal::backups_view(b@),
                )
            } else {
                grub_applied(
                    *old(fs),
                    *final(fs),
                    "etc/default/grub"@,
                    text::views_of(params@),
                    crate::journal::backups_view(b@),
                )
            },
            Err(e) => e is Bootloader,
        },
        (if old(fs).present(old(fs).full("boot/loader/entries"@)) {
            sdboot_can_apply(*old(fs), "boot/loader/entries"@, text::views_of(params@))
        } else {
            old(fs).present(old(fs).full("etc/default/grub"@)) && grub_can_apply(
                *old(fs),
                "etc/default/grub"@,
                text::views_of(params@),
            )
        }) ==> r is Ok,
{
    match detect_bootloader(fs) {
        Ok(BootloaderType::SystemdBoot) => {
            add_kernel_params_systemd_boot(fs, "boot/loader/entries", params)
        },
        Ok(BootloaderType::Grub) => add_kernel_params_grub(fs, "etc/default/grub", params),
        Err(e) => Err(e),
    }
}

/// Removes kernel parameters from whichever bootloader is detected;
/// reports whether the GRUB default file changed, so the caller knows to
/// regenerate `grub.cfg`.
pub fn remove_kernel_params(fs: &mut SysfsRoot, params: &Vec<String>) -> (r: Result<bool, Error>)
    requires
        old(fs).wf(),
    ensures
        final(fs).wf(),
        final(fs).root == old(fs).root,
        final(fs).links == old(fs).links,
        final(fs).dirs == old(fs).dirs,
        final(fs).write_protected == old(fs).write_protected,
        final(fs).read_protected == old(fs).read_protected,
        match r {
            Ok(changed) => if old(fs).present(old(fs).full("boot/loader/entries"@)) {
                !changed && sdboot_removed(
                    *old(fs),
                    *final(fs),
                    "boot/loader/entries"@,
                    names_of(text::views_of(params@)),
                )
            } else {
                grub_removed(
                    *old(fs),
                    *final(fs),
                    "etc/default/grub"@,
                    names_of(text::views_of(params@)),
                    changed,
                )
            },
            Err(e) => e is Bootloader,
        },
        (if old(fs).present(old(fs).full("boot/loader/entries"@)) {
            sdboot_can_remove(
                *old(fs),
                "boot/loader/entries"@,
                names_of(text::views_of(params@)),
            )
        } else {
            old(fs).present(old(fs).full("etc/default/grub"@)) && grub_can_remove(
                *old(fs),
                "etc/default/grub"@,
                names_of(text::views_of(params@)),
            )
        }) ==> r is Ok,
{
    match detect_bootloader(fs) {
        Ok(BootloaderType::SystemdBoot) => {
            match remove_kernel_params_systemd_boot(fs, "boot/loader/entries", params) {
                Ok(()) => Ok(false),
                Err(e) => Err(e),
            }
        },
        Ok(BootloaderType::Grub) => remove_kernel_params_grub(fs, "etc/default/grub", params),
        Err(e) => Err(e),
    }
}

// ---------------------------------------------------------------------------
// Backup laws
// ---------------------------------------------------------------------------

/// Backup determinism: every backup a systemd-boot apply captures holds
/// exactly the bytes its file carried before that apply touched anything
/// — the recorded content is the pre-apply content, byte for byte.
pub proof fn lemma_backups_match_prior_content(
    oldfs: SysfsRoot,
    newfs: SysfsRoot,
    dir: Seq<char>,
    ps: Seq<Seq<char>>,
    bks: Seq<BackupView>,
)
    requires
        sdboot_applied(oldfs, newfs, dir, ps, bks),
    ensures
        forall|k: int|
            0 <= k < bks.len() ==> oldfs.lookup(#[trigger] bks[k].path) == Some(bks[k].content),
{
    lemma_expected_backups_sound(oldfs, conf_rels_of(oldfs, dir), ps, 0, Seq::empty());
}

/// Every entry the expected-backup fold emits records the filesystem's
/// own content for its path.
proof fn lemma_expected_backups_sound(
    fsv: SysfsRoot,
    rels: Seq<Seq<char>>,
    ps: Seq<Seq<char>>,
    i: int,
    acc: Seq<BackupView>,
)
    requires
        0 <= i <= rels.len(),
        forall|k: int|
            0 <= k < acc.len() ==> fsv.lookup(#[trigger] acc[k].path) == Some(acc[k].content),
    ensures
        forall|k: int|
            0 <= k < expected_backups_rels(fsv, rels, ps, i, acc).len() ==> fsv.lookup(
                #[trigger] expected_backups_rels(fsv, rels, ps, i, acc)[k].path,
            ) == Some(expected_backups_rels(fsv, rels, ps, i, acc)[k].content),
    decreases rels.len() - i,
{
    if i < rels.len() {
        match fsv.lookup_rel(rels[i]) {
            Some(c) => {
                if spec_content_added(c, ps) != c {
                    let e = BackupView {
                        path: crate::fs::path_join(fsv.root@, rels[i]),
                        content: c,
                    };
                    let acc2 = acc.push(e);
                    assert forall|k: int|
                        0 <= k < acc2.len() implies fsv.lookup(#[trigger] acc2[k].path) == Some(
                        acc2[k].content,
                    ) by {
                        if k < acc.len() {
                            assert(acc2[k] == acc[k]);
                        } else {
                            assert(acc2[k] == e);
                        }
                    }
                    lemma_expected_backups_sound(fsv, rels, ps, i + 1, acc2);
                } else {
                    lemma_expected_backups_sound(fsv, rels, ps, i + 1, acc);
                }
            },
            None => {
                lemma_expected_backups_sound(fsv, rels, ps, i + 1, acc);
            },
        }
    }
}

/// Round trip for boot files: after a systemd-boot apply and a
/// successful restore of its backups, every file the apply changed holds
/// its pre-apply bytes again, and every other file never moved — the
/// tree is bit-identical to where it started for all touched
/// boot-configuration files.
pub proof fn lemma_bootloader_round_trip(
    oldfs: SysfsRoot,
    midfs: SysfsRoot,
    finfs: SysfsRoot,
    dir: Seq<char>,
    ps: Seq<Seq<char>>,
    bks: Seq<BackupView>,
)
    requires
        sdboot_applied(oldfs, midfs, dir, ps, bks),
        // what a successful restore of `bks` over the applied tree
        // guarantees, per `restore_kernel_param_backups`:
        forall|k: int|
            0 <= k < bks.len() && (forall|l: int| k < l < bks.len() ==> bks[l].path != bks[
                k
            ].path) ==> finfs.lookup(#[trigger] bks[k].path) == Some(bks[k].content),
        forall|p: Seq<char>|
            (forall|k: int| 0 <= k < bks.len() ==> #[trigger] bks[k].path != p)
                ==> #[trigger] finfs.lookup(p) == midfs.lookup(p),
    ensures
        forall|k: int|
            0 <= k < bks.len() && (forall|l: int| k < l < bks.len() ==> bks[l].path != bks[
                k
            ].path) ==> finfs.lookup(#[trigger] bks[k].path) == oldfs.lookup(bks[k].path),
        forall|p: Seq<char>|
            !among_fulls(oldfs.root@, conf_rels_of(oldfs, dir), p) && (forall|k: int|
                0 <= k < bks.len() ==> #[trigger] bks[k].path != p) ==> #[trigger] finfs.lookup(
                p,
            ) == oldfs.lookup(p),
{
    lemma_backups_match_prior_content(oldfs, midfs, dir, ps, bks);
}

} // verus!
