//! The revert engine: drains a journal, undoing each recorded change,
//! and keeps exactly the steps that still need work.

use vstd::prelude::*;
use crate::error::Error;
use crate::journal::{backups_view, changes_view, ApplyState, KernelParamBackup, SysfsChange};
use crate::text;

verus! {

/// The side-effect surface revert drives; tests inject fakes that fail
/// step by step.
pub trait RevertOps {
    /// Writes a recorded original value back to an absolute sysfs path.
    fn write_sysfs(&mut self, path: &str, value: &str) -> Result<(), Error>;

    /// Flips one ACPI wake source back.
    fn toggle_acpi_wakeup(&mut self, device: &str) -> Result<(), Error>;

    /// Restores boot files to their backed-up content.
    fn restore_kernel_param_backups(&mut self, backups: &Vec<KernelParamBackup>) -> Result<
        (),
        Error,
    >;

    /// Removes added kernel parameters from the bootloader, for journals
    /// that predate backups.
    fn remove_kernel_params(&mut self, params: &Vec<String>) -> Result<(), Error>;

    /// Re-enables a disabled unit.
    fn enable_service(&mut self, service: &str) -> Result<(), Error>;

    /// Disables and removes the generated persistence unit.
    fn remove_units(&mut self) -> Result<(), Error>;

    /// Persists the retained journal.
    fn save_state(&mut self, state: &ApplyState) -> Result<(), Error>;

    /// Deletes the journal file after a complete revert.
    fn remove_state_file(&mut self) -> Result<(), Error>;
}

/// Whether the journal still holds work for a retry.
pub fn has_pending_reverts(state: &ApplyState) -> (r: bool)
    ensures
        r == (state.sysfs_changes@.len() > 0 || state.acpi_wakeup_toggled@.len() > 0
            || state.kernel_params_added@.len() > 0 || state.services_disabled@.len() > 0
            || state.systemd_units_created@.len() > 0),
{
    state.sysfs_changes.len() > 0 || state.acpi_wakeup_toggled.len() > 0
        || state.kernel_params_added.len() > 0 || state.services_disabled.len() > 0
        || state.systemd_units_created.len() > 0
}

/// An order-preserving embedding of `rem` into `orig`: strictly
/// increasing positions, one per retained element, each carrying it.
pub open spec fn is_embedding<T>(idx: Seq<int>, rem: Seq<T>, orig: Seq<T>) -> bool {
    &&& idx.len() == rem.len()
    &&& forall|k: int| 0 <= k < idx.len() ==> 0 <= #[trigger] idx[k] < orig.len()
    &&& forall|k: int| 0 <= k < idx.len() - 1 ==> #[trigger] idx[k] < idx[k + 1]
    &&& forall|k: int| 0 <= k < idx.len() ==> #[trigger] rem[k] == orig[idx[k]]
}

/// `rem` is an order-preserving subsequence of `orig`: its elements occur
/// in `orig`, in the same order, without duplication beyond `orig`'s own.
pub open spec fn subsequence_of<T>(rem: Seq<T>, orig: Seq<T>) -> bool {
    exists|idx: Seq<int>| #[trigger] is_embedding(idx, rem, orig)
}

/// Everything revert_steps promises of the journal it retains: the
/// timestamp is kept; the retained sysfs changes, wake toggles and
/// services are order-preserving subsequences of the input's; kernel
/// parameters, their backups and the created units are retained whole or
/// not at all; and nothing new appears.
pub open spec fn spec_retained(remaining: ApplyState, state: ApplyState) -> bool {
    &&& remaining.timestamp@ == state.timestamp@
    &&& subsequence_of(changes_view(remaining.sysfs_changes@), changes_view(state.sysfs_changes@))
    &&& subsequence_of(
        text::views_of(remaining.acpi_wakeup_toggled@),
        text::views_of(state.acpi_wakeup_toggled@),
    )
    &&& subsequence_of(
        text::views_of(remaining.services_disabled@),
        text::views_of(state.services_disabled@),
    )
    &&& (remaining.kernel_params_added@.len() == 0 || text::views_of(
        remaining.kernel_params_added@,
    ) == text::views_of(state.kernel_params_added@))
    &&& (remaining.kernel_param_backups@.len() == 0 || backups_view(
        remaining.kernel_param_backups@,
    ) == backups_view(state.kernel_param_backups@))
    &&& (remaining.systemd_units_created@.len() == 0 || text::views_of(
        remaining.systemd_units_created@,
    ) == text::views_of(state.systemd_units_created@))
    &&& remaining.modprobe_files_created@.len() == 0
    &&& remaining.brightness_original is None
}

/// Undoes every recorded change, one kind after the other, in reverse of
/// the apply order. The returned journal retains exactly the entries
/// whose undo failed — with one deliberate asymmetry: a wake toggle that
/// succeeded is dropped even when later steps fail, because the toggle
/// interface is edge-triggered and a retry would re-disable the source.
/// Every retained entry is one of the input's entries.
pub fn revert_steps<O: RevertOps>(state: &ApplyState, ops: &mut O) -> (remaining: ApplyState)
    ensures
        spec_retained(remaining, *state),
{
    let mut remaining = ApplyState::default();
    remaining.timestamp = state.timestamp.clone();

    let ghost mut sysfs_idx: Seq<int> = Seq::empty();
    let mut i: usize = 0;
    while i < state.sysfs_changes.len()
        invariant
            i <= state.sysfs_changes@.len(),
            sysfs_idx.len() == remaining.sysfs_changes@.len(),
            forall|k: int| 0 <= k < sysfs_idx.len() ==> 0 <= #[trigger] sysfs_idx[k] < i,
            forall|k: int|
                0 <= k < sysfs_idx.len() - 1 ==> #[trigger] sysfs_idx[k] < sysfs_idx[k + 1],
            forall|k: int|
                0 <= k < sysfs_idx.len() ==> #[trigger] changes_view(remaining.sysfs_changes@)[k]
                    == changes_view(state.sysfs_changes@)[sysfs_idx[k]],
            remaining.timestamp@ == state.timestamp@,
            remaining.acpi_wakeup_toggled@.len() == 0,
            remaining.kernel_params_added@.len() == 0,
            remaining.kernel_param_backups@.len() == 0,
            remaining.services_disabled@.len() == 0,
            remaining.systemd_units_created@.len() == 0,
            remaining.modprobe_files_created@.len() == 0,
            remaining.brightness_original is None,
        decreases state.sysfs_changes@.len() - i,
    {
        let change = &state.sysfs_changes[i];
        match ops.write_sysfs(change.path.as_str(), change.original_value.as_str()) {
            Ok(()) => {},
            Err(_) => {
                let ghost pre = changes_view(remaining.sysfs_changes@);
                let copy = change.duplicate();
                remaining.sysfs_changes.push(copy);
                proof {
                    sysfs_idx = sysfs_idx.push(i as int);
                    assert(changes_view(remaining.sysfs_changes@) =~= pre.push(
                        remaining.sysfs_changes@.last()@,
                    ));
                }
            },
        }
        i = i + 1;
    }
    proof {
        assert(is_embedding(
            sysfs_idx,
            changes_view(remaining.sysfs_changes@),
            changes_view(state.sysfs_changes@),
        ));
    }

    let ghost mut wake_idx: Seq<int> = Seq::empty();
    let mut i: usize = 0;
    while i < state.acpi_wakeup_toggled.len()
        invariant
            i <= state.acpi_wakeup_toggled@.len(),
            subsequence_of(
                changes_view(remaining.sysfs_changes@),
                changes_view(state.sysfs_changes@),
            ),
            wake_idx.len() == remaining.acpi_wakeup_toggled@.len(),
            forall|k: int| 0 <= k < wake_idx.len() ==> 0 <= #[trigger] wake_idx[k] < i,
            forall|k: int|
                0 <= k < wake_idx.len() - 1 ==> #[trigger] wake_idx[k] < wake_idx[k + 1],
            forall|k: int|
                0 <= k < wake_idx.len() ==> #[trigger] text::views_of(
                    remaining.acpi_wakeup_toggled@,
                )[k] == text::views_of(state.acpi_wakeup_toggled@)[wake_idx[k]],
            remaining.timestamp@ == state.timestamp@,
            remaining.kernel_params_added@.len() == 0,
            remaining.kernel_param_backups@.len() == 0,
            remaining.services_disabled@.len() == 0,
            remaining.systemd_units_created@.len() == 0,
            remaining.modprobe_files_created@.len() == 0,
            remaining.brightness_original is None,
        decreases state.acpi_wakeup_toggled@.len() - i,
    {
        let device = &state.acpi_wakeup_toggled[i];
        match ops.toggle_acpi_wakeup(device.as_str()) {
            Ok(()) => {},
            Err(_) => {
                let ghost pre = text::views_of(remaining.acpi_wakeup_toggled@);
                let copy = device.clone();
                remaining.acpi_wakeup_toggled.push(copy);
                proof {
                    wake_idx = wake_idx.push(i as int);
                    assert(text::views_of(remaining.acpi_wakeup_toggled@) =~= pre.push(
                        remaining.acpi_wakeup_toggled@.last()@,
                    ));
                }
            },
        }
        i = i + 1;
    }
    proof {
        assert(is_embedding(
            wake_idx,
            text::views_of(remaining.acpi_wakeup_toggled@),
            text::views_of(state.acpi_wakeup_toggled@),
        ));
    }

    if state.kernel_param_backups.len() > 0 {
        match ops.restore_kernel_param_backups(&state.kernel_param_backups) {
            Ok(()) => {},
            Err(_) => {
                let mut kept: Vec<KernelParamBackup> = Vec::new();
                let mut t: usize = 0;
                while t < state.kernel_param_backups.len()
                    invariant
                        t <= state.kernel_param_backups@.len(),
                        backups_view(kept@) == backups_view(state.kernel_param_backups@).subrange(
                            0,
                            t as int,
                        ),
                    decreases state.kernel_param_backups@.len() - t,
                {
                    let ghost before = backups_view(kept@);
                    kept.push(state.kernel_param_backups[t].duplicate());
                    assert(backups_view(kept@) =~= before.push(kept@.last()@));
                    assert(backups_view(kept@) =~= backups_view(
                        state.kernel_param_backups@,
                    ).subrange(0, t + 1));
                    t = t + 1;
                }
                proof {
                    assert(backups_view(state.kernel_param_backups@).subrange(
                        0,
                        state.kernel_param_backups@.len() as int,
                    ) =~= backups_view(state.kernel_param_backups@));
                }
                remaining.kernel_param_backups = kept;
            },
        }
    } else if state.kernel_params_added.len() > 0 {
        match ops.remove_kernel_params(&state.kernel_params_added) {
            Ok(()) => {},
            Err(_) => {
                remaining.kernel_params_added = crate::journal::clone_strings(
                    &state.kernel_params_added,
                );
            },
        }
    }

    let ghost mut svc_idx: Seq<int> = Seq::empty();
    let mut i: usize = 0;
    while i < state.services_disabled.len()
        invariant
            i <= state.services_disabled@.len(),
            subsequence_of(
                changes_view(remaining.sysfs_changes@),
                changes_view(state.sysfs_changes@),
            ),
            subsequence_of(
                text::views_of(remaining.acpi_wakeup_toggled@),
                text::views_of(state.acpi_wakeup_toggled@),
            ),
            svc_idx.len() == remaining.services_disabled@.len(),
            forall|k: int| 0 <= k < svc_idx.len() ==> 0 <= #[trigger] svc_idx[k] < i,
            forall|k: int|
                0 <= k < svc_idx.len() - 1 ==> #[trigger] svc_idx[k] < svc_idx[k + 1],
            forall|k: int|
                0 <= k < svc_idx.len() ==> #[trigger] text::views_of(
                    remaining.services_disabled@,
                )[k] == text::views_of(state.services_disabled@)[svc_idx[k]],
            remaining.timestamp@ == state.timestamp@,
            remaining.kernel_params_added@.len() == 0 || text::views_of(
                remaining.kernel_params_added@,
            ) == text::views_of(state.kernel_params_added@),
            remaining.kernel_param_backups@.len() == 0 || backups_view(
                remaining.kernel_param_backups@,
            ) == backups_view(state.kernel_param_backups@),
            remaining.systemd_units_created@.len() == 0,
            remaining.modprobe_files_created@.len() == 0,
            remaining.brightness_original is None,
        decreases state.services_disabled@.len() - i,
    {
        let svc = &state.services_disabled[i];
        match ops.enable_service(svc.as_str()) {
            Ok(()) => {},
            Err(_) => {
                let ghost pre = text::views_of(remaining.services_disabled@);
                let copy = svc.clone();
                remaining.services_disabled.push(copy);
                proof {
                    svc_idx = svc_idx.push(i as int);
                    assert(text::views_of(remaining.services_disabled@) =~= pre.push(
                        remaining.services_disabled@.last()@,
                    ));
                }
            },
        }
        i = i + 1;
    }
    proof {
        assert(is_embedding(
            svc_idx,
            text::views_of(remaining.services_disabled@),
            text::views_of(state.services_disabled@),
        ));
    }

    if state.systemd_units_created.len() > 0 {
        match ops.remove_units() {
            Ok(()) => {},
            Err(_) => {
                remaining.systemd_units_created = crate::journal::clone_strings(
                    &state.systemd_units_created,
                );
            },
        }
    }

    remaining
}

/// Drains the loaded journal: when everything was undone, the state file
/// goes away; when any step failed, the retained journal is persisted so
/// the operator can retry after resolving the failures. Reports whether
/// the revert was complete, together with the retained journal itself:
/// complete exactly when nothing remains to retry.
pub fn revert_loaded_state<O: RevertOps>(state: &ApplyState, ops: &mut O) -> (r: Result<
    (bool, ApplyState),
    Error,
>)
    ensures
        r is Ok ==> ({
            let complete = r->Ok_0.0;
            let remaining = r->Ok_0.1;
            &&& spec_retained(remaining, *state)
            &&& complete <==> !(remaining.sysfs_changes@.len() > 0
                || remaining.acpi_wakeup_toggled@.len() > 0
                || remaining.kernel_params_added@.len() > 0
                || remaining.services_disabled@.len() > 0
                || remaining.systemd_units_created@.len() > 0)
        }),
{
    let remaining = revert_steps(state, ops);
    if has_pending_reverts(&remaining) {
        match ops.save_state(&remaining) {
            Ok(()) => Ok((false, remaining)),
            Err(e) => Err(e),
        }
    } else {
        match ops.remove_state_file() {
            Ok(()) => Ok((true, remaining)),
            Err(e) => Err(e),
        }
    }
}

} // verus!
