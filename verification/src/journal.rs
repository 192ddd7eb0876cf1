//! The apply journal: the persisted record of every observable mutation,
//! and the single source of truth for recovery.
//!
//! The shell around the library serializes [`ApplyState`] to and from the
//! state file; everything that builds or rewrites one is verified here.

use vstd::prelude::*;

verus! {

/// One runtime sysfs change: the value read immediately before the write,
/// and the value written.
#[derive(Debug, Clone)]
pub struct SysfsChange {
    pub path: String,
    pub original_value: String,
    pub new_value: String,
}

/// Byte-exact prior content of one boot-configuration file.
#[derive(Debug, Clone, PartialEq, Eq)]
pub struct KernelParamBackup {
    pub path: String,
    pub original_content: String,
}

/// View of a [`SysfsChange`].
pub struct SysfsChangeView {
    pub path: Seq<char>,
    pub original_value: Seq<char>,
    pub new_value: Seq<char>,
}

/// View of a [`KernelParamBackup`].
pub struct BackupView {
    pub path: Seq<char>,
    pub content: Seq<char>,
}

impl View for SysfsChange {
    type V = SysfsChangeView;

    open spec fn view(&self) -> SysfsChangeView {
        SysfsChangeView {
            path: self.path@,
            original_value: self.original_value@,
            new_value: self.new_value@,
        }
    }
}

impl View for KernelParamBackup {
    type V = BackupView;

    open spec fn view(&self) -> BackupView {
        BackupView { path: self.path@, content: self.original_content@ }
    }
}

/// Views of a vector of sysfs changes.
pub open spec fn changes_view(v: Seq<SysfsChange>) -> Seq<SysfsChangeView> {
    v.map_values(|c: SysfsChange| c@)
}

/// Views of a vector of backups.
pub open spec fn backups_view(v: Seq<KernelParamBackup>) -> Seq<BackupView> {
    v.map_values(|b: KernelParamBackup| b@)
}

impl SysfsChange {
    /// A value-equal copy.
    pub fn duplicate(&self) -> (r: Self)
        ensures
            r@ == self@,
    {
        SysfsChange {
            path: self.path.clone(),
            original_value: self.original_value.clone(),
            new_value: self.new_value.clone(),
        }
    }
}

impl KernelParamBackup {
    /// A value-equal copy.
    pub fn duplicate(&self) -> (r: Self)
        ensures
            r@ == self@,
    {
        KernelParamBackup {
            path: self.path.clone(),
            original_content: self.original_content.clone(),
        }
    }
}

/// Everything one apply run changed, persisted after each checkpoint
/// fence and drained again by revert.
#[derive(Debug, Clone)]
pub struct ApplyState {
    pub timestamp: String,
    pub sysfs_changes: Vec<SysfsChange>,
    pub kernel_params_added: Vec<String>,
    pub kernel_param_backups: Vec<KernelParamBackup>,
    pub services_disabled: Vec<String>,
    pub systemd_units_created: Vec<String>,
    pub modprobe_files_created: Vec<String>,
    pub acpi_wakeup_toggled: Vec<String>,
    pub brightness_original: Option<u64>,
}

impl Default for ApplyState {
    /// The empty journal: no recorded changes and an empty timestamp.
    fn default() -> (r: Self)
        ensures
            r.timestamp@ == Seq::<char>::empty(),
            r.sysfs_changes@.len() == 0,
            r.kernel_params_added@.len() == 0,
            r.kernel_param_backups@.len() == 0,
            r.services_disabled@.len() == 0,
            r.systemd_units_created@.len() == 0,
            r.modprobe_files_created@.len() == 0,
            r.acpi_wakeup_toggled@.len() == 0,
            r.brightness_original is None,
    {
        ApplyState {
            timestamp: String::new(),
            sysfs_changes: Vec::new(),
            kernel_params_added: Vec::new(),
            kernel_param_backups: Vec::new(),
            services_disabled: Vec::new(),
            systemd_units_created: Vec::new(),
            modprobe_files_created: Vec::new(),
            acpi_wakeup_toggled: Vec::new(),
            brightness_original: None,
        }
    }
}

impl ApplyState {
    /// Whether anything at all has been recorded.
    pub open spec fn spec_has_recorded_changes(&self) -> bool {
        ||| self.sysfs_changes@.len() > 0
        ||| self.kernel_params_added@.len() > 0
        ||| self.services_disabled@.len() > 0
        ||| self.systemd_units_created@.len() > 0
        ||| self.modprobe_files_created@.len() > 0
        ||| self.acpi_wakeup_toggled@.len() > 0
    }

    /// Whether anything at all has been recorded.
    pub fn has_recorded_changes(&self) -> (r: bool)
        ensures
            r == self.spec_has_recorded_changes(),
    {
        self.sysfs_changes.len() > 0 || self.kernel_params_added.len() > 0
            || self.services_disabled.len() > 0 || self.systemd_units_created.len() > 0
            || self.modprobe_files_created.len() > 0 || self.acpi_wakeup_toggled.len() > 0
    }
}

/// Content of the last backup for `p`, scanning left to right so that a
/// later entry overrides an earlier one for the same path.
pub open spec fn backup_content_from(
    bs: Seq<BackupView>,
    i: int,
    p: Seq<char>,
    cur: Option<Seq<char>>,
) -> Option<Seq<char>>
    decreases bs.len() - i,
{
    if i < 0 || i >= bs.len() {
        cur
    } else if bs[i].path == p {
        backup_content_from(bs, i + 1, p, Some(bs[i].content))
    } else {
        backup_content_from(bs, i + 1, p, cur)
    }
}

/// Content of the last backup for `p`, if any.
pub open spec fn backup_content(bs: Seq<BackupView>, p: Seq<char>) -> Option<Seq<char>> {
    backup_content_from(bs, 0, p, None)
}

/// Prior backups, each replaced by the fresh backup for the same path when
/// one exists.
pub open spec fn merged_prev_from(
    prev: Seq<BackupView>,
    fresh: Seq<BackupView>,
    i: int,
    acc: Seq<BackupView>,
) -> Seq<BackupView>
    decreases prev.len() - i,
{
    if i < 0 || i >= prev.len() {
        acc
    } else {
        match backup_content(fresh, prev[i].path) {
            Some(c) => merged_prev_from(
                prev,
                fresh,
                i + 1,
                acc.push(BackupView { path: prev[i].path, content: c }),
            ),
            None => merged_prev_from(prev, fresh, i + 1, acc.push(prev[i])),
        }
    }
}

/// Fresh backups for paths not seen before, appended in order.
pub open spec fn appended_fresh_from(
    prev: Seq<BackupView>,
    fresh: Seq<BackupView>,
    i: int,
    acc: Seq<BackupView>,
) -> Seq<BackupView>
    decreases fresh.len() - i,
{
    if i < 0 || i >= fresh.len() {
        acc
    } else if backup_content(prev, fresh[i].path) is Some {
        appended_fresh_from(prev, fresh, i + 1, acc)
    } else {
        appended_fresh_from(prev, fresh, i + 1, acc.push(fresh[i]))
    }
}

/// The backup-merge policy: fresh entries replace prior entries for the
/// same path in place; prior entries for untouched paths are preserved;
/// fresh entries for new paths are appended.
pub open spec fn merge_backups(prev: Seq<BackupView>, fresh: Seq<BackupView>) -> Seq<
    BackupView,
> {
    appended_fresh_from(prev, fresh, 0, merged_prev_from(prev, fresh, 0, Seq::empty()))
}

/// The last backup content for `p` among backups stored in a vector.
fn find_backup_content(bs: &Vec<KernelParamBackup>, p: &str) -> (r: Option<String>)
    ensures
        match r {
            Some(c) => backup_content(backups_view(bs@), p@) == Some(c@),
            None => backup_content(backups_view(bs@), p@) is None,
        },
{
    let ghost bv = backups_view(bs@);
    let mut cur: Option<String> = None;
    let mut i: usize = 0;
    while i < bs.len()
        invariant
            i <= bs@.len(),
            bv == backups_view(bs@),
            backup_content(bv, p@) == backup_content_from(
                bv,
                i as int,
                p@,
                match cur {
                    Some(c) => Some(c@),
                    None => None,
                },
            ),
        decreases bs@.len() - i,
    {
        if crate::text::str_eq(bs[i].path.as_str(), p) {
            cur = Some(bs[i].original_content.clone());
        }
        i = i + 1;
    }
    cur
}

/// A value-equal copy of a string vector.
pub fn clone_strings(v: &Vec<String>) -> (r: Vec<String>)
    ensures
        r@ == v@,
{
    let mut out: Vec<String> = Vec::new();
    let mut i: usize = 0;
    while i < v.len()
        invariant
            i <= v@.len(),
            out@ == v@.subrange(0, i as int),
        decreases v@.len() - i,
    {
        out.push(v[i].clone());
        assert(out@ =~= v@.subrange(0, i + 1 as int));
        i = i + 1;
    }
    assert(out@ =~= v@);
    out
}

/// Records the planned kernel parameters in `state` and merges the fresh
/// bootloader backups over the previous journal's, per the backup-merge
/// policy.
pub fn merge_kernel_param_state(
    state: &mut ApplyState,
    planned_params: &Vec<String>,
    new_backups: Vec<KernelParamBackup>,
    previous_state: Option<&ApplyState>,
)
    ensures
        final(state).kernel_params_added@ == planned_params@,
        backups_view(final(state).kernel_param_backups@) == merge_backups(
            match previous_state {
                Some(prev) => backups_view(prev.kernel_param_backups@),
                None => Seq::empty(),
            },
            backups_view(new_backups@),
        ),
        final(state).timestamp == old(state).timestamp,
        final(state).sysfs_changes == old(state).sysfs_changes,
        final(state).services_disabled == old(state).services_disabled,
        final(state).systemd_units_created == old(state).systemd_units_created,
        final(state).modprobe_files_created == old(state).modprobe_files_created,
        final(state).acpi_wakeup_toggled == old(state).acpi_wakeup_toggled,
        final(state).brightness_original == old(state).brightness_original,
{
    state.kernel_params_added = clone_strings(planned_params);

    let ghost fresh = backups_view(new_backups@);
    let mut merged: Vec<KernelParamBackup> = Vec::new();
    assert(backups_view(merged@) =~= Seq::<BackupView>::empty());
    match previous_state {
        Some(prev) => {
            let ghost pv = backups_view(prev.kernel_param_backups@);
            let mut i: usize = 0;
            while i < prev.kernel_param_backups.len()
                invariant
                    i <= prev.kernel_param_backups@.len(),
                    pv == backups_view(prev.kernel_param_backups@),
                    fresh == backups_view(new_backups@),
                    merged_prev_from(pv, fresh, 0, Seq::empty()) == merged_prev_from(
                        pv,
                        fresh,
                        i as int,
                        backups_view(merged@),
                    ),
                decreases prev.kernel_param_backups@.len() - i,
            {
                let b = &prev.kernel_param_backups[i];
                let ghost before = backups_view(merged@);
                match find_backup_content(&new_backups, b.path.as_str()) {
                    Some(c) => {
                        merged.push(
                            KernelParamBackup { path: b.path.clone(), original_content: c },
                        );
                    },
                    None => {
                        merged.push(b.duplicate());
                    },
                }
                assert(backups_view(merged@) =~= before.push(merged@.last()@));
                i = i + 1;
            }
            let ghost base = backups_view(merged@);
            let mut i: usize = 0;
            while i < new_backups.len()
                invariant
                    i <= new_backups@.len(),
                    pv == backups_view(prev.kernel_param_backups@),
                    fresh == backups_view(new_backups@),
                    appended_fresh_from(pv, fresh, 0, base) == appended_fresh_from(
                        pv,
                        fresh,
                        i as int,
                        backups_view(merged@),
                    ),
                decreases new_backups@.len() - i,
            {
                let nb = &new_backups[i];
                match find_backup_content(&prev.kernel_param_backups, nb.path.as_str()) {
                    Some(_) => {},
                    None => {
                        let ghost before = backups_view(merged@);
                        merged.push(nb.duplicate());
                        assert(backups_view(merged@) =~= before.push(merged@.last()@));
                    },
                }
                i = i + 1;
            }
            state.kernel_param_backups = merged;
        },
        None => {
            let ghost pv = Seq::<BackupView>::empty();
            let mut i: usize = 0;
            while i < new_backups.len()
                invariant
                    i <= new_backups@.len(),
                    pv == Seq::<BackupView>::empty(),
                    fresh == backups_view(new_backups@),
                    appended_fresh_from(pv, fresh, 0, Seq::empty()) == appended_fresh_from(
                        pv,
                        fresh,
                        i as int,
                        backups_view(merged@),
                    ),
                decreases new_backups@.len() - i,
            {
                let nb = &new_backups[i];
                let ghost before = backups_view(merged@);
                proof {
                    assert(backup_content(pv, fresh[i as int].path) is None);
                }
                merged.push(nb.duplicate());
                assert(backups_view(merged@) =~= before.push(merged@.last()@));
                i = i + 1;
            }
            assert(merged_prev_from(pv, fresh, 0, Seq::empty()) =~= Seq::<BackupView>::empty());
            state.kernel_param_backups = merged;
        },
    }
}

// ---------------------------------------------------------------------------
// The merge law
// ---------------------------------------------------------------------------

/// Folding from `i` in the whole is folding from `i - 1` in the tail.
proof fn lemma_content_drop(bs: Seq<BackupView>, i: int, p: Seq<char>, cur: Option<Seq<char>>)
    requires
        1 <= i <= bs.len(),
    ensures
        backup_content_from(bs, i, p, cur) == backup_content_from(bs.drop_first(), i - 1, p, cur),
    decreases bs.len() - i,
{
    if i < bs.len() {
        assert(bs.drop_first()[i - 1] == bs[i]);
        if bs[i].path == p {
            lemma_content_drop(bs, i + 1, p, Some(bs[i].content));
        } else {
            lemma_content_drop(bs, i + 1, p, cur);
        }
    }
}

/// A fold that starts with a value in hand ends with the sequence's own
/// answer when it has one, and with that value otherwise.
proof fn lemma_content_cur(bs: Seq<BackupView>, i: int, p: Seq<char>, x: Seq<char>)
    requires
        0 <= i <= bs.len(),
    ensures
        backup_content_from(bs, i, p, Some(x)) == (match backup_content_from(bs, i, p, None) {
            Some(c) => Some(c),
            None => Some(x),
        }),
    decreases bs.len() - i,
{
    if i < bs.len() {
        if bs[i].path == p {
            lemma_content_cur(bs, i + 1, p, bs[i].content);
        } else {
            lemma_content_cur(bs, i + 1, p, x);
        }
    }
}

/// The content fold over a concatenation: the first part's outcome feeds
/// the second part as its starting value.
proof fn lemma_content_append(xs: Seq<BackupView>, ys: Seq<BackupView>, p: Seq<char>, cur: Option<
    Seq<char>,
>)
    ensures
        backup_content_from(xs + ys, 0, p, cur) == backup_content_from(
            ys,
            0,
            p,
            backup_content_from(xs, 0, p, cur),
        ),
    decreases xs.len(),
{
    if xs.len() == 0 {
        assert(xs + ys =~= ys);
    } else {
        let cur2: Option<Seq<char>> = if xs[0].path == p {
            Some(xs[0].content)
        } else {
            cur
        };
        assert((xs + ys)[0] == xs[0]);
        lemma_content_drop(xs + ys, 1, p, cur2);
        assert((xs + ys).drop_first() =~= xs.drop_first() + ys);
        lemma_content_append(xs.drop_first(), ys, p, cur2);
        lemma_content_drop(xs, 1, p, cur2);
    }
}

/// A fold that pushes onto its accumulator yields the accumulator
/// followed by the fold from an empty one: the prior-entry half.
proof fn lemma_merged_prev_acc(
    prev: Seq<BackupView>,
    fresh: Seq<BackupView>,
    i: int,
    acc: Seq<BackupView>,
)
    requires
        0 <= i <= prev.len(),
    ensures
        merged_prev_from(prev, fresh, i, acc) == acc + merged_prev_from(
            prev,
            fresh,
            i,
            Seq::empty(),
        ),
    decreases prev.len() - i,
{
    if i >= prev.len() {
        assert(acc + Seq::<BackupView>::empty() =~= acc);
    } else {
        let e = match backup_content(fresh, prev[i].path) {
            Some(c) => BackupView { path: prev[i].path, content: c },
            None => prev[i],
        };
        lemma_merged_prev_acc(prev, fresh, i + 1, acc.push(e));
        lemma_merged_prev_acc(prev, fresh, i + 1, seq![e]);
        assert(acc.push(e) =~= acc + seq![e]);
        assert(acc + seq![e] + merged_prev_from(prev, fresh, i + 1, Seq::empty()) =~= acc + (
        seq![e] + merged_prev_from(prev, fresh, i + 1, Seq::empty())));
        assert(Seq::<BackupView>::empty().push(e) =~= seq![e]);
    }
}

/// The same accumulator split for the fresh-entry half.
proof fn lemma_appended_fresh_acc(
    prev: Seq<BackupView>,
    fresh: Seq<BackupView>,
    i: int,
    acc: Seq<BackupView>,
)
    requires
        0 <= i <= fresh.len(),
    ensures
        appended_fresh_from(prev, fresh, i, acc) == acc + appended_fresh_from(
            prev,
            fresh,
            i,
            Seq::empty(),
        ),
    decreases fresh.len() - i,
{
    if i >= fresh.len() {
        assert(acc + Seq::<BackupView>::empty() =~= acc);
    } else if backup_content(prev, fresh[i].path) is Some {
        lemma_appended_fresh_acc(prev, fresh, i + 1, acc);
    } else {
        lemma_appended_fresh_acc(prev, fresh, i + 1, acc.push(fresh[i]));
        lemma_appended_fresh_acc(prev, fresh, i + 1, seq![fresh[i]]);
        assert(acc.push(fresh[i]) =~= acc + seq![fresh[i]]);
        assert(acc + seq![fresh[i]] + appended_fresh_from(prev, fresh, i + 1, Seq::empty())
            =~= acc + (seq![fresh[i]] + appended_fresh_from(prev, fresh, i + 1, Seq::empty())));
        assert(Seq::<BackupView>::empty().push(fresh[i]) =~= seq![fresh[i]]);
    }
}

/// What the prior-entry half holds for a path: the fresh content when
/// both sides know the path, the prior content when only the prior side
/// does, and nothing otherwise.
proof fn lemma_merged_prev_content(
    prev: Seq<BackupView>,
    fresh: Seq<BackupView>,
    i: int,
    p: Seq<char>,
    cur: Option<Seq<char>>,
)
    requires
        0 <= i <= prev.len(),
    ensures
        backup_content_from(merged_prev_from(prev, fresh, i, Seq::empty()), 0, p, cur) == (
        match backup_content_from(prev, i, p, None) {
            Some(c) => match backup_content(fresh, p) {
                Some(f) => Some(f),
                None => Some(c),
            },
            None => cur,
        }),
    decreases prev.len() - i,
{
    if i >= prev.len() {
    } else {
        let e = match backup_content(fresh, prev[i].path) {
            Some(c) => BackupView { path: prev[i].path, content: c },
            None => prev[i],
        };
        lemma_merged_prev_acc(prev, fresh, i + 1, seq![e]);
        assert(merged_prev_from(prev, fresh, i, Seq::empty()) == seq![e] + merged_prev_from(
            prev,
            fresh,
            i + 1,
            Seq::empty(),
        )) by {
            assert(Seq::<BackupView>::empty().push(e) =~= seq![e]);
        }
        lemma_content_append(
            seq![e],
            merged_prev_from(prev, fresh, i + 1, Seq::empty()),
            p,
            cur,
        );
        let cur2: Option<Seq<char>> = if e.path == p {
            Some(e.content)
        } else {
            cur
        };
        assert(backup_content_from(seq![e], 1, p, cur2) == cur2);
        assert(backup_content_from(seq![e], 0, p, cur) == cur2);
        lemma_merged_prev_content(prev, fresh, i + 1, p, cur2);
        if prev[i].path == p {
            lemma_content_cur(prev, i + 1, p, prev[i].content);
        }
    }
}

/// What the fresh-entry half appends for a path: nothing when the prior
/// side knows it, the fresh content otherwise.
proof fn lemma_appended_fresh_content(
    prev: Seq<BackupView>,
    fresh: Seq<BackupView>,
    i: int,
    p: Seq<char>,
    cur: Option<Seq<char>>,
)
    requires
        0 <= i <= fresh.len(),
    ensures
        backup_content_from(appended_fresh_from(prev, fresh, i, Seq::empty()), 0, p, cur) == (
        if backup_content(prev, p) is None {
            match backup_content_from(fresh, i, p, None) {
                Some(f) => Some(f),
                None => cur,
            }
        } else {
            cur
        }),
    decreases fresh.len() - i,
{
    if i >= fresh.len() {
    } else if backup_content(prev, fresh[i].path) is Some {
        lemma_appended_fresh_content(prev, fresh, i + 1, p, cur);
        if fresh[i].path == p {
            assert(backup_content(prev, p) is Some);
            lemma_content_cur(fresh, i + 1, p, fresh[i].content);
        }
    } else {
        lemma_appended_fresh_acc(prev, fresh, i + 1, seq![fresh[i]]);
        assert(appended_fresh_from(prev, fresh, i, Seq::empty()) == seq![fresh[i]]
            + appended_fresh_from(prev, fresh, i + 1, Seq::empty())) by {
            assert(Seq::<BackupView>::empty().push(fresh[i]) =~= seq![fresh[i]]);
        }
        lemma_content_append(
            seq![fresh[i]],
            appended_fresh_from(prev, fresh, i + 1, Seq::empty()),
            p,
            cur,
        );
        let cur2: Option<Seq<char>> = if fresh[i].path == p {
            Some(fresh[i].content)
        } else {
            cur
        };
        assert(backup_content_from(seq![fresh[i]], 1, p, cur2) == cur2);
        assert(backup_content_from(seq![fresh[i]], 0, p, cur) == cur2);
        lemma_appended_fresh_content(prev, fresh, i + 1, p, cur2);
        if fresh[i].path == p {
            assert(backup_content(prev, p) is None);
            lemma_content_cur(fresh, i + 1, p, fresh[i].content);
        }
    }
}

/// Merge correctness: for every path, the merged backups answer with the
/// fresh run's content when that run touched the path, and with the
/// prior journal's content otherwise. Running apply twice therefore
/// leaves the union by path: prior entries for untouched paths survive,
/// and entries for re-touched paths carry the fresh baseline.
pub proof fn lemma_merge_backups_content(
    prev: Seq<BackupView>,
    fresh: Seq<BackupView>,
    p: Seq<char>,
)
    ensures
        backup_content(merge_backups(prev, fresh), p) == (match backup_content(fresh, p) {
            Some(f) => Some(f),
            None => backup_content(prev, p),
        }),
{
    let base = merged_prev_from(prev, fresh, 0, Seq::empty());
    lemma_appended_fresh_acc(prev, fresh, 0, base);
    assert(merge_backups(prev, fresh) == base + appended_fresh_from(
        prev,
        fresh,
        0,
        Seq::empty(),
    ));
    lemma_content_append(base, appended_fresh_from(prev, fresh, 0, Seq::empty()), p, None);
    lemma_merged_prev_content(prev, fresh, 0, p, None);
    lemma_appended_fresh_content(prev, fresh, 0, p, backup_content_from(base, 0, p, None));
}

} // verus!

