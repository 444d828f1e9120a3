//! Activation adapters for Docker CLI plugins and PATH plugins: they put an
//! owned symlink (or, for PATH plugins on Windows, an owned `.cmd` shim) at
//! the planned host path, take it away again, and record for every change a
//! rollback entry whose replay puts back what stood there before.
use vstd::prelude::*;

use crate::memory_fs::{ancestor_chain, MemoryActivationFs};
use crate::activation_fs::{
    parent_dirs_spec, failed_write_leaves,
    dir_added_or_same, owned_service_metadata, owned_shim, owned_symlink, owner_for_plan,
    owner_is, owner_opt_view, plan_owner, same_owner, copy_owner, ActivationFilesystem,
    ActivationFsEntry, ActivationOwner, EntryView, OwnerView,
};
use crate::text::{
    chars_eq, chars_eq_str, chars_of, contains_char, ends_with_str, extend_str, has_prefix, has_suffix,
    slice_chars, starts_with, str_eq, string_of,
};
use crate::types::{
    opt_view, strings_view, HostPlatform, IntegrationActivationPlan, IntegrationAppliedState,
    IntegrationReasonCode, PlanView,
};

verus! {

/// What a rollback entry undoes.
#[derive(Clone, Copy, Debug, PartialEq, Eq, Structural)]
pub enum ActivationRollbackOperation {
    RemoveCreatedSymlink,
    RestoreOwnedSymlink,
    RemoveCreatedWindowsShim,
    RestoreOwnedWindowsShim,
    RemoveCreatedServiceMetadata,
    RestoreOwnedServiceMetadata,
}

/// One step that undoes an adapter's change to a host path, with the state
/// the path must be in for the step to apply.
#[derive(Clone, Debug, PartialEq, Eq)]
pub struct ActivationRollbackEntry {
    pub operation: ActivationRollbackOperation,
    pub path: String,
    pub previous_symlink_target: Option<String>,
    pub previous_shim_target: Option<String>,
    pub previous_owner: Option<ActivationOwner>,
    pub created_symlink_target: Option<String>,
    pub created_shim_target: Option<String>,
    pub created_owner: Option<ActivationOwner>,
    pub expected_current_symlink_target: Option<String>,
    pub expected_current_shim_target: Option<String>,
    pub expected_current_owner: Option<ActivationOwner>,
    pub expected_current_absent: bool,
    pub created_parent_dirs: Vec<String>,
}

pub struct RollbackView {
    pub operation: ActivationRollbackOperation,
    pub path: Seq<char>,
    pub previous_symlink_target: Option<Seq<char>>,
    pub previous_shim_target: Option<Seq<char>>,
    pub previous_owner: Option<OwnerView>,
    pub created_symlink_target: Option<Seq<char>>,
    pub created_shim_target: Option<Seq<char>>,
    pub created_owner: Option<OwnerView>,
    pub expected_current_symlink_target: Option<Seq<char>>,
    pub expected_current_shim_target: Option<Seq<char>>,
    pub expected_current_owner: Option<OwnerView>,
    pub expected_current_absent: bool,
    pub created_parent_dirs: Seq<Seq<char>>,
}

impl View for ActivationRollbackEntry {
    type V = RollbackView;

    open spec fn view(&self) -> RollbackView {
        RollbackView {
            operation: self.operation,
            path: self.path@,
            previous_symlink_target: opt_view(self.previous_symlink_target),
            previous_shim_target: opt_view(self.previous_shim_target),
            previous_owner: owner_opt_view(self.previous_owner),
            created_symlink_target: opt_view(self.created_symlink_target),
            created_shim_target: opt_view(self.created_shim_target),
            created_owner: owner_opt_view(self.created_owner),
            expected_current_symlink_target: opt_view(self.expected_current_symlink_target),
            expected_current_shim_target: opt_view(self.expected_current_shim_target),
            expected_current_owner: owner_opt_view(self.expected_current_owner),
            expected_current_absent: self.expected_current_absent,
            created_parent_dirs: strings_view(self.created_parent_dirs@),
        }
    }
}

/// What an adapter reports: a reason code, the state it left the
/// integration in, and the rollback entries that undo its changes.
#[derive(Clone, Debug, PartialEq, Eq)]
pub struct ActivationAdapterOutcome {
    pub reason_code: IntegrationReasonCode,
    pub applied_state: IntegrationAppliedState,
    pub rollback: Vec<ActivationRollbackEntry>,
}

pub struct OutcomeView {
    pub reason_code: IntegrationReasonCode,
    pub applied_state: IntegrationAppliedState,
    pub rollback: Seq<RollbackView>,
}

pub open spec fn rollback_views(v: Seq<ActivationRollbackEntry>) -> Seq<RollbackView> {
    v.map_values(|e: ActivationRollbackEntry| e@)
}

impl View for ActivationAdapterOutcome {
    type V = OutcomeView;

    open spec fn view(&self) -> OutcomeView {
        OutcomeView {
            reason_code: self.reason_code,
            applied_state: self.applied_state,
            rollback: rollback_views(self.rollback@),
        }
    }
}

/// An outcome with nothing to roll back.
pub open spec fn plain_outcome(
    reason_code: IntegrationReasonCode,
    applied_state: IntegrationAppliedState,
) -> OutcomeView {
    OutcomeView { reason_code, applied_state, rollback: Seq::empty() }
}

pub open spec fn conflict_outcome() -> OutcomeView {
    plain_outcome(IntegrationReasonCode::HostPathConflict, IntegrationAppliedState::Failed)
}

pub open spec fn escalation_outcome() -> OutcomeView {
    plain_outcome(IntegrationReasonCode::EscalationRequired, IntegrationAppliedState::Unsupported)
}

impl ActivationAdapterOutcome {
    /// The exposure already is as planned.
    pub fn ok() -> (r: Self)
        ensures
            r@ == plain_outcome(IntegrationReasonCode::Success, IntegrationAppliedState::Enabled),
    {
        Self::service(IntegrationReasonCode::Success, IntegrationAppliedState::Enabled)
    }

    /// The host path holds something the plan may not replace.
    pub fn conflict() -> (r: Self)
        ensures
            r@ == conflict_outcome(),
    {
        Self::service(IntegrationReasonCode::HostPathConflict, IntegrationAppliedState::Failed)
    }

    /// The change needs privileges the adapter does not take.
    pub fn escalation_required() -> (r: Self)
        ensures
            r@ == escalation_outcome(),
    {
        Self::service(IntegrationReasonCode::EscalationRequired, IntegrationAppliedState::Unsupported)
    }

    /// An outcome with the given codes and nothing to roll back.
    pub fn service(
        reason_code: IntegrationReasonCode,
        applied_state: IntegrationAppliedState,
    ) -> (r: Self)
        ensures
            r@ == plain_outcome(reason_code, applied_state),
    {
        let r = Self { reason_code, applied_state, rollback: Vec::new() };
        assert(rollback_views(r.rollback@) =~= Seq::<RollbackView>::empty());
        r
    }
}

/// The outcome that carries one rollback entry.
fn outcome_with(
    reason_code: IntegrationReasonCode,
    applied_state: IntegrationAppliedState,
    entry: ActivationRollbackEntry,
) -> (r: ActivationAdapterOutcome)
    ensures
        r@ == (OutcomeView { reason_code, applied_state, rollback: seq![entry@] }),
{
    let ghost ev = entry@;
    let r = ActivationAdapterOutcome { reason_code, applied_state, rollback: vec![entry] };
    assert(rollback_views(r.rollback@) =~= seq![ev]);
    r
}

// ---------------------------------------------------------------------------
// filesystem states

/// Both filesystems are on the same host with the same symlink support
/// and reliability.
pub open spec fn same_host<F: ActivationFilesystem>(a: F, b: F) -> bool {
    &&& a.spec_platform() == b.spec_platform()
    &&& a.spec_symlink_supported() == b.spec_symlink_supported()
    &&& a.spec_reliable() == b.spec_reliable()
}

/// Every path holds the same entry in both.
pub open spec fn same_entries<F: ActivationFilesystem>(a: F, b: F) -> bool {
    forall|p: Seq<char>| #[trigger] b.spec_entry(p) == a.spec_entry(p)
}

/// Away from `path`, the only change is directories added where nothing stood.
pub open spec fn only_dirs_added_elsewhere<F: ActivationFilesystem>(
    a: F,
    b: F,
    path: Seq<char>,
) -> bool {
    forall|p: Seq<char>|
        p != path ==> dir_added_or_same(a.spec_entry(p), #[trigger] b.spec_entry(p))
}

/// The link kind an adapter manages: an owned symlink, or an owned Windows
/// shim when `shim` holds.
pub open spec fn owned_link(shim: bool, target: Seq<char>, owner: OwnerView) -> Option<EntryView> {
    if shim {
        owned_shim(target, owner)
    } else {
        owned_symlink(target, owner)
    }
}

/// Target and owner of the entry when it is a link of the managed kind.
pub open spec fn link_parts(shim: bool, e: Option<EntryView>) -> Option<(Seq<char>, Option<OwnerView>)> {
    match e {
        Some(EntryView::Symlink { target, owner }) => if shim {
            None
        } else {
            Some((target, owner))
        },
        Some(EntryView::WindowsShim { target, owner }) => if shim {
            Some((target, owner))
        } else {
            None
        },
        _ => None,
    }
}

// ---------------------------------------------------------------------------
// rollback entries

pub open spec fn blank_rollback(operation: ActivationRollbackOperation, path: Seq<char>) -> RollbackView {
    RollbackView {
        operation,
        path,
        previous_symlink_target: None,
        previous_shim_target: None,
        previous_owner: None,
        created_symlink_target: None,
        created_shim_target: None,
        created_owner: None,
        expected_current_symlink_target: None,
        expected_current_shim_target: None,
        expected_current_owner: None,
        expected_current_absent: false,
        created_parent_dirs: Seq::empty(),
    }
}

/// Undoes a link that a plan created where nothing stood.
pub open spec fn created_link_rollback(plan: PlanView, shim: bool, dirs: Seq<Seq<char>>) -> RollbackView {
    if shim {
        RollbackView {
            created_shim_target: Some(plan.source_path),
            created_owner: Some(plan_owner(plan)),
            created_parent_dirs: dirs,
            ..blank_rollback(ActivationRollbackOperation::RemoveCreatedWindowsShim, plan.host_path)
        }
    } else {
        RollbackView {
            created_symlink_target: Some(plan.source_path),
            created_owner: Some(plan_owner(plan)),
            created_parent_dirs: dirs,
            ..blank_rollback(ActivationRollbackOperation::RemoveCreatedSymlink, plan.host_path)
        }
    }
}

/// Undoes a plan's retargeting of its own link, expecting the new target.
pub open spec fn replaced_link_rollback(
    plan: PlanView,
    shim: bool,
    previous: Seq<char>,
    previous_owner: OwnerView,
    dirs: Seq<Seq<char>>,
) -> RollbackView {
    if shim {
        RollbackView {
            previous_shim_target: Some(previous),
            previous_owner: Some(previous_owner),
            expected_current_shim_target: Some(plan.source_path),
            expected_current_owner: Some(plan_owner(plan)),
            created_parent_dirs: dirs,
            ..blank_rollback(ActivationRollbackOperation::RestoreOwnedWindowsShim, plan.host_path)
        }
    } else {
        RollbackView {
            previous_symlink_target: Some(previous),
            previous_owner: Some(previous_owner),
            expected_current_symlink_target: Some(plan.source_path),
            expected_current_owner: Some(plan_owner(plan)),
            created_parent_dirs: dirs,
            ..blank_rollback(ActivationRollbackOperation::RestoreOwnedSymlink, plan.host_path)
        }
    }
}

/// Undoes the removal of a plan's link, expecting the path to be empty.
pub open spec fn removed_link_rollback(
    plan: PlanView,
    shim: bool,
    previous: Seq<char>,
    previous_owner: Option<OwnerView>,
) -> RollbackView {
    if shim {
        RollbackView {
            previous_shim_target: Some(previous),
            previous_owner,
            expected_current_absent: true,
            ..blank_rollback(ActivationRollbackOperation::RestoreOwnedWindowsShim, plan.host_path)
        }
    } else {
        RollbackView {
            previous_symlink_target: Some(previous),
            previous_owner,
            expected_current_absent: true,
            ..blank_rollback(ActivationRollbackOperation::RestoreOwnedSymlink, plan.host_path)
        }
    }
}

// ---------------------------------------------------------------------------
// putting links in place and taking them away

/// What putting a plan's link in place does (`shim` picks the link kind):
/// an existing link of the plan is kept or retargeted, an empty path gets a
/// new link, anything else is a conflict that changes nothing. A change is
/// reported with the rollback entry that undoes it; a filesystem operation
/// that fails turns it into a conflict.
pub open spec fn link_apply_post<F: ActivationFilesystem>(
    before: F,
    after: F,
    plan: PlanView,
    out: OutcomeView,
    shim: bool,
) -> bool {
    let host = plan.host_path;
    let owner = plan_owner(plan);
    let existing = before.spec_entry(host);
    &&& same_host(before, after)
    &&& only_dirs_added_elsewhere(before, after, host)
    &&& before.spec_reliable() ==> link_apply_exact(before, after, plan, out, shim)
    &&& match link_parts(shim, existing) {
        Some((target, o)) => if o == Some(owner) {
            if target == plan.source_path {
                out == plain_outcome(IntegrationReasonCode::Success, IntegrationAppliedState::Enabled)
                    && same_entries(before, after)
            } else {
                exists|dirs: Option<Seq<Seq<char>>>, written: bool|
                    #[trigger] link_apply_answered(before, after, plan, out, shim, dirs, written)
            }
        } else {
            out == conflict_outcome() && same_entries(before, after)
        },
        None => if existing is Some {
            out == conflict_outcome() && same_entries(before, after)
        } else {
            exists|dirs: Option<Seq<Seq<char>>>, written: bool|
                #[trigger] link_apply_answered(before, after, plan, out, shim, dirs, written)
        },
    }
}

/// The target of the entry when it is a link of the managed kind.
pub open spec fn link_target(shim: bool, e: Option<EntryView>) -> Option<Seq<char>> {
    match link_parts(shim, e) {
        Some((t, _)) => Some(t),
        None => None,
    }
}

/// What a path may hold after a step that failed: what it held, nothing,
/// or a directory.
pub open spec fn left_or_emptied(before: Option<EntryView>, after: Option<EntryView>) -> bool {
    after == before || after is None || after == Some(EntryView::Directory)
}

/// What putting a plan's link in place reports, given the filesystem's
/// answers: `dirs`, the missing ancestors of the host path it created
/// (`None` where it could not create them), and `written`, whether it
/// wrote the link. `previous` is the target of the plan's own link being
/// retargeted, `None` where the path was empty. Success, with the rollback
/// entry that undoes the change and lists those directories, only where
/// both steps went through; a conflict otherwise.
pub open spec fn link_apply_outcome_spec(
    plan: PlanView,
    shim: bool,
    previous: Option<Seq<char>>,
    dirs: Option<Seq<Seq<char>>>,
    written: bool,
) -> OutcomeView {
    if written && dirs is Some {
        OutcomeView {
            reason_code: IntegrationReasonCode::Success,
            applied_state: IntegrationAppliedState::Enabled,
            rollback: seq![
                match previous {
                    Some(t) => replaced_link_rollback(plan, shim, t, plan_owner(plan), dirs->0),
                    None => created_link_rollback(plan, shim, dirs->0),
                },
            ],
        }
    } else {
        conflict_outcome()
    }
}

/// A link written where it was not: the outcome is `link_apply_outcome_spec`
/// of the filesystem's answers; a written link stands at the host path, and
/// where none was written the path holds what it held or nothing.
pub open spec fn link_apply_answered<F: ActivationFilesystem>(
    before: F,
    after: F,
    plan: PlanView,
    out: OutcomeView,
    shim: bool,
    dirs: Option<Seq<Seq<char>>>,
    written: bool,
) -> bool {
    let host = plan.host_path;
    let existing = before.spec_entry(host);
    &&& out == link_apply_outcome_spec(plan, shim, link_target(shim, existing), dirs, written)
    &&& written ==> after.spec_entry(host) == owned_link(shim, plan.source_path, plan_owner(plan))
    &&& !written ==> left_or_emptied(existing, after.spec_entry(host))
}

/// The answers of `create_parent_dirs_after_preflight` as a view.
pub open spec fn dirs_answer(d: Option<Vec<String>>) -> Option<Seq<Seq<char>>> {
    match d {
        Some(v) => Some(strings_view(v@)),
        None => None,
    }
}

/// The outcome of putting a plan's link in place from the filesystem's
/// answers (see `link_apply_outcome_spec`).
pub fn link_apply_outcome(
    plan: &IntegrationActivationPlan,
    shim: bool,
    previous: &Option<String>,
    dirs: Option<Vec<String>>,
    written: bool,
) -> (out: ActivationAdapterOutcome)
    ensures
        out@ == link_apply_outcome_spec(plan@, shim, opt_view(*previous), dirs_answer(dirs), written),
{
    if !written {
        return ActivationAdapterOutcome::conflict();
    }
    let dirs = match dirs {
        Some(d) => d,
        None => {
            return ActivationAdapterOutcome::conflict();
        },
    };
    let entry = match previous {
        Some(target) => ActivationRollbackEntry {
            operation: if shim {
                ActivationRollbackOperation::RestoreOwnedWindowsShim
            } else {
                ActivationRollbackOperation::RestoreOwnedSymlink
            },
            path: plan.host_path.clone(),
            previous_symlink_target: opt_if(!shim, target),
            previous_shim_target: opt_if(shim, target),
            previous_owner: Some(owner_for_plan(plan)),
            created_symlink_target: None,
            created_shim_target: None,
            created_owner: None,
            expected_current_symlink_target: opt_if(!shim, &plan.source_path),
            expected_current_shim_target: opt_if(shim, &plan.source_path),
            expected_current_owner: Some(owner_for_plan(plan)),
            expected_current_absent: false,
            created_parent_dirs: dirs,
        },
        None => ActivationRollbackEntry {
            operation: if shim {
                ActivationRollbackOperation::RemoveCreatedWindowsShim
            } else {
                ActivationRollbackOperation::RemoveCreatedSymlink
            },
            path: plan.host_path.clone(),
            previous_symlink_target: None,
            previous_shim_target: None,
            previous_owner: None,
            created_symlink_target: opt_if(!shim, &plan.source_path),
            created_shim_target: opt_if(shim, &plan.source_path),
            created_owner: Some(owner_for_plan(plan)),
            expected_current_symlink_target: None,
            expected_current_shim_target: None,
            expected_current_owner: None,
            expected_current_absent: false,
            created_parent_dirs: dirs,
        },
    };
    outcome_with(IntegrationReasonCode::Success, IntegrationAppliedState::Enabled, entry)
}

/// `after` is `before` with `e` at `host`, directories at `dirs`, and
/// every other entry kept.
pub open spec fn placed_with<F: ActivationFilesystem>(
    before: F,
    after: F,
    host: Seq<char>,
    e: Option<EntryView>,
    dirs: Seq<Seq<char>>,
) -> bool {
    forall|p: Seq<char>|
        #[trigger] after.spec_entry(p) == if p == host {
            e
        } else if dirs.contains(p) {
            Some(EntryView::Directory)
        } else {
            before.spec_entry(p)
        }
}

/// What putting a plan's link in place does on a reliable filesystem:
/// where a link is to be written, the host path's missing ancestors
/// (`parent_dirs_spec`) are created and the link written, and the rollback
/// entry lists those directories; where an ancestor is not a directory, a
/// conflict that changes nothing.
pub open spec fn link_apply_exact<F: ActivationFilesystem>(
    before: F,
    after: F,
    plan: PlanView,
    out: OutcomeView,
    shim: bool,
) -> bool {
    let host = plan.host_path;
    let owner = plan_owner(plan);
    let existing = before.spec_entry(host);
    let link = owned_link(shim, plan.source_path, owner);
    let writes = match link_parts(shim, existing) {
        Some((target, o)) => o == Some(owner) && target != plan.source_path,
        None => existing is None,
    };
    writes ==> match parent_dirs_spec(before, host) {
        None => out == conflict_outcome() && same_entries(before, after),
        Some(ds) => placed_with(before, after, host, link, ds) && out == (OutcomeView {
            reason_code: IntegrationReasonCode::Success,
            applied_state: IntegrationAppliedState::Enabled,
            rollback: seq![
                match link_parts(shim, existing) {
                    Some((target, _)) => replaced_link_rollback(plan, shim, target, owner, ds),
                    None => created_link_rollback(plan, shim, ds),
                },
            ],
        }),
    }
}

/// What taking a plan's link away does: the plan's own link to its source
/// is removed, an empty path is left as it is, anything else is a conflict.
pub open spec fn link_disable_post<F: ActivationFilesystem>(
    before: F,
    after: F,
    plan: PlanView,
    out: OutcomeView,
    shim: bool,
) -> bool {
    let host = plan.host_path;
    let existing = before.spec_entry(host);
    &&& same_host(before, after)
    &&& forall|p: Seq<char>| p != host ==> #[trigger] after.spec_entry(p) == before.spec_entry(p)
    &&& match link_parts(shim, existing) {
        Some((target, o)) => if o == Some(plan_owner(plan)) && target == plan.source_path {
            &&& before.spec_reliable() ==> out == link_disable_outcome_spec(plan, shim, target, o, true)
            &&& exists|removed: bool|
                #[trigger] link_disable_answered(before, after, plan, out, shim, target, o, removed)
        } else {
            out == conflict_outcome() && same_entries(before, after)
        },
        None => if existing is Some {
            out == conflict_outcome() && same_entries(before, after)
        } else {
            out == plain_outcome(IntegrationReasonCode::Success, IntegrationAppliedState::Stopped)
                && same_entries(before, after)
        },
    }
}

/// What taking a plan's link (to `target`, owned by `owner`) away reports,
/// given whether the filesystem removed it: success with the rollback entry
/// that puts it back, or a conflict.
pub open spec fn link_disable_outcome_spec(
    plan: PlanView,
    shim: bool,
    target: Seq<char>,
    owner: Option<OwnerView>,
    removed: bool,
) -> OutcomeView {
    if removed {
        OutcomeView {
            reason_code: IntegrationReasonCode::Success,
            applied_state: IntegrationAppliedState::Stopped,
            rollback: seq![removed_link_rollback(plan, shim, target, owner)],
        }
    } else {
        conflict_outcome()
    }
}

/// A removal: the outcome is `link_disable_outcome_spec` of the
/// filesystem's answer; the path is empty where the link was removed and
/// still holds something where it was not.
pub open spec fn link_disable_answered<F: ActivationFilesystem>(
    before: F,
    after: F,
    plan: PlanView,
    out: OutcomeView,
    shim: bool,
    target: Seq<char>,
    owner: Option<OwnerView>,
    removed: bool,
) -> bool {
    &&& out == link_disable_outcome_spec(plan, shim, target, owner, removed)
    &&& removed ==> after.spec_entry(plan.host_path) is None
    &&& !removed ==> after.spec_entry(plan.host_path) is Some
}

/// The outcome of taking a plan's link away from the filesystem's answer
/// (see `link_disable_outcome_spec`).
pub fn link_disable_outcome(
    plan: &IntegrationActivationPlan,
    shim: bool,
    target: &String,
    owner: Option<ActivationOwner>,
    removed: bool,
) -> (out: ActivationAdapterOutcome)
    ensures
        out@ == link_disable_outcome_spec(plan@, shim, target@, owner_opt_view(owner), removed),
{
    if !removed {
        return ActivationAdapterOutcome::conflict();
    }
    let entry = ActivationRollbackEntry {
        operation: if shim {
            ActivationRollbackOperation::RestoreOwnedWindowsShim
        } else {
            ActivationRollbackOperation::RestoreOwnedSymlink
        },
        path: plan.host_path.clone(),
        previous_symlink_target: opt_if(!shim, target),
        previous_shim_target: opt_if(shim, target),
        previous_owner: owner,
        created_symlink_target: None,
        created_shim_target: None,
        created_owner: None,
        expected_current_symlink_target: None,
        expected_current_shim_target: None,
        expected_current_owner: None,
        expected_current_absent: true,
        created_parent_dirs: Vec::new(),
    };
    assert(strings_view(entry.created_parent_dirs@) =~= Seq::<Seq<char>>::empty());
    outcome_with(IntegrationReasonCode::Success, IntegrationAppliedState::Stopped, entry)
}

/// Target and owner of a link of the managed kind.
fn link_of(e: &Option<ActivationFsEntry>, shim: bool) -> (r: Option<(String, Option<ActivationOwner>)>)
    ensures
        match r {
            Some((t, o)) => link_parts(
                shim,
                crate::activation_fs::entry_opt_view(*e),
            ) == Some((t@, owner_opt_view(o))),
            None => link_parts(shim, crate::activation_fs::entry_opt_view(*e)) is None,
        },
{
    match e {
        Some(ActivationFsEntry::Symlink { target, owner }) => if shim {
            None
        } else {
            Some((target.clone(), crate::activation_fs::copy_owner_opt(owner)))
        },
        Some(ActivationFsEntry::WindowsShim { target, owner }) => if shim {
            Some((target.clone(), crate::activation_fs::copy_owner_opt(owner)))
        } else {
            None
        },
        _ => None,
    }
}

/// Writes a link of the managed kind.
fn write_link<F: ActivationFilesystem>(
    fs: &mut F,
    shim: bool,
    path: &str,
    target: &str,
    owner: &ActivationOwner,
) -> (written: bool)
    ensures
        same_host(*old(fs), *final(fs)),
        final(fs).spec_reliable() == old(fs).spec_reliable(),
        old(fs).spec_reliable() ==> written,
        written ==> final(fs).spec_entry(path@) == owned_link(shim, target@, owner@),
        !written ==> failed_write_leaves(old(fs).spec_entry(path@), final(fs).spec_entry(path@)),
        forall|p: Seq<char>|
            p != path@ ==> #[trigger] final(fs).spec_entry(p) == old(fs).spec_entry(p),
{
    if shim {
        fs.write_owned_shim_for(
            path,
            target,
            owner.package_state_key.as_str(),
            owner.package.as_str(),
            owner.integration_key.as_str(),
        )
    } else {
        fs.write_owned_symlink_for(
            path,
            target,
            owner.package_state_key.as_str(),
            owner.package.as_str(),
            owner.integration_key.as_str(),
        )
    }
}

fn opt_if(cond: bool, s: &String) -> (r: Option<String>)
    ensures
        opt_view(r) == if cond {
            Some(s@)
        } else {
            None::<Seq<char>>
        },
{
    if cond {
        Some(s.clone())
    } else {
        None
    }
}

/// Puts the plan's link in place (see `link_apply_post`).
fn apply_owned_link<F: ActivationFilesystem>(
    fs: &mut F,
    plan: &IntegrationActivationPlan,
    shim: bool,
) -> (out: ActivationAdapterOutcome)
    ensures
        link_apply_post(*old(fs), *final(fs), plan@, out@, shim),
{
    let host = plan.host_path.as_str();
    let existing = fs.entry(host);
    let expected = owner_for_plan(plan);
    let ghost before = *fs;
    let ghost link = owned_link(shim, plan.source_path@, plan_owner(plan@));
    let previous = match link_of(&existing, shim) {
        Some((target, owner)) => {
            if !owner_is(&owner, &expected) {
                return ActivationAdapterOutcome::conflict();
            }
            if str_eq(target.as_str(), plan.source_path.as_str()) {
                return ActivationAdapterOutcome::ok();
            }
            Some(target)
        },
        None => {
            if existing.is_some() {
                return ActivationAdapterOutcome::conflict();
            }
            None
        },
    };
    assert(opt_view(previous) == link_target(shim, before.spec_entry(host@)));
    let dirs = match fs.create_parent_dirs_after_preflight(host) {
        Some(d) => d,
        None => {
            let out = link_apply_outcome(plan, shim, &previous, None, false);
            proof {
                if before.spec_reliable() {
                    assert(parent_dirs_spec(before, host@) is None);
                    crate::activation_fs::lemma_dirs_added(before, *fs, Seq::empty());
                }
                assert(dir_added_or_same(before.spec_entry(host@), fs.spec_entry(host@)));
                assert(link_apply_answered(before, *fs, plan@, out@, shim, None, false));
            }
            return out;
        },
    };
    let ghost ds = strings_view(dirs@);
    let ghost mid = *fs;
    proof {
        if before.spec_reliable() {
            crate::activation_fs::lemma_dirs_added(before, mid, ds);
        }
        assert(dir_added_or_same(before.spec_entry(host@), mid.spec_entry(host@)));
    }
    if !write_link(fs, shim, host, plan.source_path.as_str(), &expected) {
        let ghost mid2 = *fs;
        assert(left_or_emptied(before.spec_entry(host@), mid2.spec_entry(host@)));
        if let Some(target) = &previous {
            // the plan's own link stood here: put it back as it was
            proof {
                assert(before.spec_entry(host@) == owned_link(shim, target@, expected@));
            }
            if fs.create_parent_dirs_after_preflight(host).is_some() {
                let ghost mid4 = *fs;
                assert(dir_added_or_same(mid2.spec_entry(host@), mid4.spec_entry(host@)));
                assert(left_or_emptied(before.spec_entry(host@), mid4.spec_entry(host@)));
                let _ = write_link(fs, shim, host, target.as_str(), &expected);
            }
        }
        assert(left_or_emptied(before.spec_entry(host@), fs.spec_entry(host@)));
        assert forall|p: Seq<char>| p != host@ implies dir_added_or_same(
            before.spec_entry(p),
            #[trigger] fs.spec_entry(p),
        ) by {
            assert(dir_added_or_same(before.spec_entry(p), mid.spec_entry(p)));
            assert(mid2.spec_entry(p) == mid.spec_entry(p));
        }
        let out = link_apply_outcome(plan, shim, &previous, Some(dirs), false);
        proof {
            assert(link_apply_answered(before, *fs, plan@, out@, shim, Some(ds), false));
        }
        return out;
    }
    assert forall|p: Seq<char>| p != host@ implies dir_added_or_same(
        before.spec_entry(p),
        #[trigger] fs.spec_entry(p),
    ) by {
        assert(dir_added_or_same(before.spec_entry(p), mid.spec_entry(p)));
    }
    let out = link_apply_outcome(plan, shim, &previous, Some(dirs), true);
    proof {
        assert(link_apply_answered(before, *fs, plan@, out@, shim, Some(ds), true));
    }
    out
}

/// Takes the plan's link away (see `link_disable_post`).
fn disable_owned_link<F: ActivationFilesystem>(
    fs: &mut F,
    plan: &IntegrationActivationPlan,
    shim: bool,
) -> (out: ActivationAdapterOutcome)
    ensures
        link_disable_post(*old(fs), *final(fs), plan@, out@, shim),
{
    let host = plan.host_path.as_str();
    let existing = fs.entry(host);
    let expected = owner_for_plan(plan);
    let ghost before = *fs;
    match link_of(&existing, shim) {
        Some((target, owner)) => {
            if !owner_is(&owner, &expected) || !str_eq(
                target.as_str(),
                plan.source_path.as_str(),
            ) {
                return ActivationAdapterOutcome::conflict();
            }
            let ghost ov = owner_opt_view(owner);
            let removed = fs.remove_entry(host);
            let out = link_disable_outcome(plan, shim, &target, owner, removed);
            proof {
                assert(link_disable_answered(before, *fs, plan@, out@, shim, target@, ov, removed));
            }
            out
        },
        None => {
            if existing.is_some() {
                return ActivationAdapterOutcome::conflict();
            }
            ActivationAdapterOutcome::service(
                IntegrationReasonCode::Success,
                IntegrationAppliedState::Stopped,
            )
        },
    }
}

// ---------------------------------------------------------------------------
// where PATH plugins may be exposed

/// `pat` occurs in `s` at `i`.
pub open spec fn occurs_at(s: Seq<char>, pat: Seq<char>, i: int) -> bool {
    0 <= i && i + pat.len() <= s.len() && s.subrange(i, i + pat.len()) == pat
}

/// The first index at or after `i` where `pat` occurs in `s`, or -1.
pub open spec fn find_from(s: Seq<char>, pat: Seq<char>, i: int) -> int
    decreases s.len() + 1 - i,
{
    if i < 0 || i + pat.len() > s.len() {
        -1
    } else if occurs_at(s, pat, i) {
        i
    } else {
        find_from(s, pat, i + 1)
    }
}

/// The directory that projected integrations live under.
pub open spec fn integration_marker(platform: HostPlatform) -> Seq<char> {
    if platform == HostPlatform::Windows {
        "\\share\\integrations\\"@
    } else {
        "/share/integrations/"@
    }
}

pub open spec fn separator_of(platform: HostPlatform) -> Seq<char> {
    if platform == HostPlatform::Windows {
        seq!['\\']
    } else {
        seq!['/']
    }
}

/// A PATH plugin may only be exposed as a plain file (a `.cmd` file on
/// Windows) directly inside the `bin` directory of the prefix its source
/// was projected from.
pub open spec fn under_source_prefix(platform: HostPlatform, host: Seq<char>, source: Seq<char>) -> bool {
    let i = find_from(source, integration_marker(platform), 0);
    if i <= 0 {
        false
    } else {
        let bin = source.take(i) + separator_of(platform) + "bin"@ + separator_of(platform);
        let leaf = host.skip(bin.len() as int);
        &&& has_prefix(host, bin)
        &&& leaf.len() > 0
        &&& !leaf.contains('/')
        &&& !leaf.contains('\\')
        &&& (platform != HostPlatform::Windows || has_suffix(leaf, ".cmd"@))
    }
}

pub(crate) fn find_in(s: &[char], pat: &[char]) -> (r: Option<usize>)
    ensures
        match r {
            Some(i) => find_from(s@, pat@, 0) == i as int && i + pat@.len() <= s@.len(),
            None => find_from(s@, pat@, 0) == -1,
        },
{
    let n = s.len();
    let m = pat.len();
    let mut i: usize = 0;
    if m > n {
        return None;
    }
    if m == 0 {
        assert(s@.subrange(0, 0) =~= pat@);
        return Some(0);
    }
    while i <= n - m
        invariant
            n == s@.len(),
            m == pat@.len(),
            i <= n - m + 1,
            find_from(s@, pat@, 0) == find_from(s@, pat@, i as int),
            0 < m <= n,
        decreases n + 1 - i,
    {
        let window = slice_chars(s, i, i + m);
        if chars_eq(window.as_slice(), pat) {
            return Some(i);
        }
        i = i + 1;
    }
    None
}

/// Whether `host_path` is a direct child of the `bin` directory of the prefix
/// that `source_path` was projected into (see `under_source_prefix`).
pub fn destination_is_under_source_prefix(
    platform: HostPlatform,
    host_path: &str,
    source_path: &str,
) -> (r: bool)
    ensures
        r == under_source_prefix(platform, host_path@, source_path@),
{
    let source = chars_of(source_path);
    let host = chars_of(host_path);
    let (marker, sep) = if platform == HostPlatform::Windows {
        (chars_of("\\share\\integrations\\"), '\\')
    } else {
        (chars_of("/share/integrations/"), '/')
    };
    let i = match find_in(source.as_slice(), marker.as_slice()) {
        Some(i) => i,
        None => {
            return false;
        },
    };
    if i == 0 {
        return false;
    }
    let mut bin = slice_chars(source.as_slice(), 0, i);
    bin.push(sep);
    extend_str(&mut bin, "bin");
    bin.push(sep);
    proof {
        reveal_strlit("bin");
        assert(bin@ =~= source@.take(i as int) + separator_of(platform) + "bin"@ + separator_of(
            platform,
        ));
    }
    if !starts_with(host.as_slice(), bin.as_slice()) {
        return false;
    }
    let leaf = slice_chars(host.as_slice(), bin.len(), host.len());
    assert(leaf@ =~= host@.skip(bin@.len() as int));
    if leaf.len() == 0 || contains_char(leaf.as_slice(), '/') || contains_char(
        leaf.as_slice(),
        '\\',
    ) {
        return false;
    }
    platform != HostPlatform::Windows || ends_with_str(leaf.as_slice(), ".cmd")
}

// ---------------------------------------------------------------------------
// Docker CLI plugins and PATH plugins

/// Activating a Docker CLI plugin: a symlink at the host path, unless the
/// host is Windows without symlink support.
pub open spec fn docker_apply_post<F: ActivationFilesystem>(
    before: F,
    after: F,
    plan: PlanView,
    out: OutcomeView,
) -> bool {
    if before.spec_platform() == HostPlatform::Windows && !before.spec_symlink_supported() {
        out == escalation_outcome() && same_host(before, after) && same_entries(before, after)
    } else {
        link_apply_post(before, after, plan, out, false)
    }
}

pub open spec fn docker_disable_post<F: ActivationFilesystem>(
    before: F,
    after: F,
    plan: PlanView,
    out: OutcomeView,
) -> bool {
    link_disable_post(before, after, plan, out, false)
}

/// A PATH plugin is a symlink on Unix hosts and a `.cmd` shim on Windows.
pub open spec fn path_link_is_shim(platform: HostPlatform) -> bool {
    platform == HostPlatform::Windows
}

/// Activating a PATH plugin: refused unless the host path is under the
/// source's prefix, then the platform's link kind at the host path.
pub open spec fn path_apply_post<F: ActivationFilesystem>(
    before: F,
    after: F,
    plan: PlanView,
    out: OutcomeView,
) -> bool {
    if !under_source_prefix(before.spec_platform(), plan.host_path, plan.source_path) {
        out == conflict_outcome() && same_host(before, after) && same_entries(before, after)
    } else {
        link_apply_post(before, after, plan, out, path_link_is_shim(before.spec_platform()))
    }
}

pub open spec fn path_disable_post<F: ActivationFilesystem>(
    before: F,
    after: F,
    plan: PlanView,
    out: OutcomeView,
) -> bool {
    if !under_source_prefix(before.spec_platform(), plan.host_path, plan.source_path) {
        out == conflict_outcome() && same_host(before, after) && same_entries(before, after)
    } else {
        link_disable_post(before, after, plan, out, path_link_is_shim(before.spec_platform()))
    }
}

/// Exposes a Docker CLI plugin (see `docker_apply_post`).
pub fn apply_docker_cli_plugin_plan<F: ActivationFilesystem>(
    fs: &mut F,
    plan: &IntegrationActivationPlan,
) -> (out: ActivationAdapterOutcome)
    ensures
        docker_apply_post(*old(fs), *final(fs), plan@, out@),
{
    if fs.platform() == HostPlatform::Windows && !fs.symlink_supported() {
        return ActivationAdapterOutcome::escalation_required();
    }
    apply_owned_link(fs, plan, false)
}

/// Takes a Docker CLI plugin's symlink away (see `link_disable_post`).
pub fn disable_docker_cli_plugin_plan<F: ActivationFilesystem>(
    fs: &mut F,
    plan: &IntegrationActivationPlan,
) -> (out: ActivationAdapterOutcome)
    ensures
        docker_disable_post(*old(fs), *final(fs), plan@, out@),
{
    disable_owned_link(fs, plan, false)
}

/// Exposes a PATH plugin (see `path_apply_post`).
pub fn apply_path_plugin_plan<F: ActivationFilesystem>(
    fs: &mut F,
    plan: &IntegrationActivationPlan,
) -> (out: ActivationAdapterOutcome)
    ensures
        path_apply_post(*old(fs), *final(fs), plan@, out@),
{
    let platform = fs.platform();
    if !destination_is_under_source_prefix(
        platform,
        plan.host_path.as_str(),
        plan.source_path.as_str(),
    ) {
        return ActivationAdapterOutcome::conflict();
    }
    apply_owned_link(fs, plan, platform == HostPlatform::Windows)
}

/// Takes a PATH plugin's exposure away (see `path_disable_post`).
pub fn disable_path_plugin_plan<F: ActivationFilesystem>(
    fs: &mut F,
    plan: &IntegrationActivationPlan,
) -> (out: ActivationAdapterOutcome)
    ensures
        path_disable_post(*old(fs), *final(fs), plan@, out@),
{
    let platform = fs.platform();
    if !destination_is_under_source_prefix(
        platform,
        plan.host_path.as_str(),
        plan.source_path.as_str(),
    ) {
        return ActivationAdapterOutcome::conflict();
    }
    disable_owned_link(fs, plan, platform == HostPlatform::Windows)
}

/// Activating by the plan's kind; kinds other than Docker CLI plugins and
/// PATH plugins are unsupported here.
pub open spec fn integration_apply_post<F: ActivationFilesystem>(
    before: F,
    after: F,
    plan: PlanView,
    out: OutcomeView,
) -> bool {
    if plan.kind == "docker_cli_plugin"@ {
        docker_apply_post(before, after, plan, out)
    } else if plan.kind == "path_plugin"@ {
        path_apply_post(before, after, plan, out)
    } else {
        out == plain_outcome(IntegrationReasonCode::UnsupportedHost, IntegrationAppliedState::Unsupported)
            && same_host(before, after) && same_entries(before, after)
    }
}

pub open spec fn integration_disable_post<F: ActivationFilesystem>(
    before: F,
    after: F,
    plan: PlanView,
    out: OutcomeView,
) -> bool {
    if plan.kind == "docker_cli_plugin"@ {
        docker_disable_post(before, after, plan, out)
    } else if plan.kind == "path_plugin"@ {
        path_disable_post(before, after, plan, out)
    } else {
        out == plain_outcome(IntegrationReasonCode::UnsupportedHost, IntegrationAppliedState::Unsupported)
            && same_host(before, after) && same_entries(before, after)
    }
}

/// Applies a plan by its kind (see `integration_apply_post`).
pub fn apply_integration_plan_with_fs<F: ActivationFilesystem>(
    fs: &mut F,
    plan: &IntegrationActivationPlan,
) -> (out: ActivationAdapterOutcome)
    ensures
        integration_apply_post(*old(fs), *final(fs), plan@, out@),
{
    let kind = chars_of(plan.kind.as_str());
    if chars_eq_str(kind.as_slice(), "docker_cli_plugin") {
        apply_docker_cli_plugin_plan(fs, plan)
    } else if chars_eq_str(kind.as_slice(), "path_plugin") {
        apply_path_plugin_plan(fs, plan)
    } else {
        ActivationAdapterOutcome::service(
            IntegrationReasonCode::UnsupportedHost,
            IntegrationAppliedState::Unsupported,
        )
    }
}

/// Disables a plan by its kind (see `integration_disable_post`).
pub fn disable_integration_plan_with_fs<F: ActivationFilesystem>(
    fs: &mut F,
    plan: &IntegrationActivationPlan,
) -> (out: ActivationAdapterOutcome)
    ensures
        integration_disable_post(*old(fs), *final(fs), plan@, out@),
{
    let kind = chars_of(plan.kind.as_str());
    if chars_eq_str(kind.as_slice(), "docker_cli_plugin") {
        disable_docker_cli_plugin_plan(fs, plan)
    } else if chars_eq_str(kind.as_slice(), "path_plugin") {
        disable_path_plugin_plan(fs, plan)
    } else {
        ActivationAdapterOutcome::service(
            IntegrationReasonCode::UnsupportedHost,
            IntegrationAppliedState::Unsupported,
        )
    }
}

// ---------------------------------------------------------------------------
// replaying rollback entries

/// An expected owner is met by the same owner, or by a path with no
/// recorded owner; no expectation is met by anything.
pub open spec fn owner_expectation_met(expected: Option<OwnerView>, actual: Option<OwnerView>) -> bool {
    match (expected, actual) {
        (Some(e), Some(a)) => e == a,
        _ => true,
    }
}

/// Whether a recorded owner expectation is met (see `owner_expectation_met`).
pub fn owner_matches_rollback_expectation(
    expected: &Option<ActivationOwner>,
    actual: &Option<ActivationOwner>,
) -> (r: bool)
    ensures
        r == owner_expectation_met(owner_opt_view(*expected), owner_opt_view(*actual)),
{
    match (expected, actual) {
        (Some(e), Some(a)) => same_owner(e, a),
        _ => true,
    }
}

/// The state a restoring entry expects its path to be in: empty, or the
/// link it put there (target and, where recorded, owner).
pub open spec fn restore_precondition(e: RollbackView, cur: Option<EntryView>, shim: bool) -> bool {
    if e.expected_current_absent {
        cur is None
    } else {
        let expected = if shim {
            e.expected_current_shim_target
        } else {
            e.expected_current_symlink_target
        };
        match (expected, link_parts(shim, cur)) {
            (Some(t), Some((target, owner))) => target == t && owner_expectation_met(
                e.expected_current_owner,
                owner,
            ),
            _ => false,
        }
    }
}

/// Whether the restoring entry's expectation holds of the filesystem.
pub fn restore_precondition_matches<F: ActivationFilesystem>(
    fs: &F,
    entry: &ActivationRollbackEntry,
    restore_shim: bool,
) -> (r: bool)
    ensures
        r == restore_precondition(entry@, fs.spec_entry(entry.path@), restore_shim),
{
    let cur = fs.entry(entry.path.as_str());
    if entry.expected_current_absent {
        return cur.is_none();
    }
    let expected = if restore_shim {
        &entry.expected_current_shim_target
    } else {
        &entry.expected_current_symlink_target
    };
    match (expected, link_of(&cur, restore_shim)) {
        (Some(t), Some((target, owner))) => str_eq(target.as_str(), t.as_str())
            && owner_matches_rollback_expectation(&entry.expected_current_owner, &owner),
        _ => false,
    }
}

/// Whether replaying `e` may go ahead on a path holding `cur`.
pub open spec fn replay_accepts(e: RollbackView, cur: Option<EntryView>) -> bool {
    match e.operation {
        ActivationRollbackOperation::RemoveCreatedSymlink => match e.created_symlink_target {
            Some(t) => cur is None || match link_parts(false, cur) {
                Some((target, owner)) => target == t && owner_expectation_met(
                    e.created_owner,
                    owner,
                ),
                None => false,
            },
            None => false,
        },
        ActivationRollbackOperation::RemoveCreatedWindowsShim => match e.created_shim_target {
            Some(t) => cur is None || match link_parts(true, cur) {
                Some((target, owner)) => target == t && owner_expectation_met(
                    e.created_owner,
                    owner,
                ),
                None => false,
            },
            None => false,
        },
        ActivationRollbackOperation::RestoreOwnedSymlink => e.previous_symlink_target is Some
            && e.previous_owner is Some && restore_precondition(e, cur, false),
        ActivationRollbackOperation::RestoreOwnedWindowsShim => e.previous_shim_target is Some
            && e.previous_owner is Some && restore_precondition(e, cur, true),
        ActivationRollbackOperation::RemoveCreatedServiceMetadata => match cur {
            None => true,
            Some(EntryView::ServiceMetadata { source, owner }) => (e.created_symlink_target is None
                || e.created_symlink_target == Some(source)) && owner_expectation_met(
                e.created_owner,
                owner,
            ),
            _ => false,
        },
        ActivationRollbackOperation::RestoreOwnedServiceMetadata => e.previous_symlink_target is Some
            && e.previous_owner is Some && match cur {
            Some(EntryView::ServiceMetadata { source, owner }) => (
            e.expected_current_symlink_target is None || e.expected_current_symlink_target == Some(
                source,
            )) && owner_expectation_met(e.expected_current_owner, owner),
            None => e.expected_current_symlink_target is None,
            _ => false,
        },
    }
}

/// What a replayed entry leaves at its path.
pub open spec fn restored_entry(e: RollbackView) -> Option<EntryView> {
    match e.operation {
        ActivationRollbackOperation::RestoreOwnedSymlink => owned_symlink(
            e.previous_symlink_target->0,
            e.previous_owner->0,
        ),
        ActivationRollbackOperation::RestoreOwnedWindowsShim => owned_shim(
            e.previous_shim_target->0,
            e.previous_owner->0,
        ),
        ActivationRollbackOperation::RestoreOwnedServiceMetadata => owned_service_metadata(
            e.previous_symlink_target->0,
            e.previous_owner->0,
        ),
        _ => None,
    }
}

/// The state a successful replay reports.
pub open spec fn replay_state(op: ActivationRollbackOperation) -> IntegrationAppliedState {
    match op {
        ActivationRollbackOperation::RestoreOwnedSymlink => IntegrationAppliedState::Enabled,
        ActivationRollbackOperation::RestoreOwnedWindowsShim => IntegrationAppliedState::Enabled,
        _ => IntegrationAppliedState::Stopped,
    }
}

/// Whether a reliable filesystem can carry out an accepted entry: putting a
/// link back needs the path's ancestors, so none of them may be a
/// non-directory; every other step goes through.
pub open spec fn replay_goes_through<F: ActivationFilesystem>(before: F, e: RollbackView) -> bool {
    match e.operation {
        ActivationRollbackOperation::RestoreOwnedSymlink
        | ActivationRollbackOperation::RestoreOwnedWindowsShim => parent_dirs_spec(
            before,
            e.path,
        ) is Some,
        _ => true,
    }
}

/// Replaying an entry: refused, with nothing changed, where its expectation
/// does not hold; otherwise it puts `restored_entry` at the path, or reports
/// a conflict where the filesystem fails it.
pub open spec fn replay_post<F: ActivationFilesystem>(
    before: F,
    after: F,
    e: RollbackView,
    out: OutcomeView,
) -> bool {
    &&& same_host(before, after)
    &&& only_dirs_added_elsewhere(before, after, e.path)
    &&& before.spec_reliable() && replay_accepts(e, before.spec_entry(e.path))
        && replay_goes_through(before, e) ==> out == plain_outcome(
        IntegrationReasonCode::Success,
        replay_state(e.operation),
    ) && after.spec_entry(e.path) == restored_entry(e)
    &&& if replay_accepts(e, before.spec_entry(e.path)) {
        exists|done: bool|
            #[trigger] replay_answered(
                before.spec_entry(e.path),
                after.spec_entry(e.path),
                e,
                out,
                done,
            )
    } else {
        out == conflict_outcome() && same_entries(before, after)
    }
}

/// What replaying an accepted entry reports, given whether the filesystem
/// carried out its step: success in the state the entry restores, or a
/// conflict.
pub open spec fn replay_outcome_spec(op: ActivationRollbackOperation, done: bool) -> OutcomeView {
    if done {
        plain_outcome(IntegrationReasonCode::Success, replay_state(op))
    } else {
        conflict_outcome()
    }
}

/// The outcome of replaying an accepted entry (see `replay_outcome_spec`).
pub fn replay_outcome(op: ActivationRollbackOperation, done: bool) -> (out: ActivationAdapterOutcome)
    ensures
        out@ == replay_outcome_spec(op, done),
{
    if !done {
        return ActivationAdapterOutcome::conflict();
    }
    match op {
        ActivationRollbackOperation::RestoreOwnedSymlink
        | ActivationRollbackOperation::RestoreOwnedWindowsShim => ActivationAdapterOutcome::service(
            IntegrationReasonCode::Success,
            IntegrationAppliedState::Enabled,
        ),
        _ => ActivationAdapterOutcome::service(
            IntegrationReasonCode::Success,
            IntegrationAppliedState::Stopped,
        ),
    }
}

/// What the entry's path may hold after its step failed: a removal that
/// failed leaves something where something stood; a write that failed
/// leaves what stood, nothing, or a directory.
pub open spec fn replay_failure_leaves(
    op: ActivationRollbackOperation,
    before: Option<EntryView>,
    after: Option<EntryView>,
) -> bool {
    match op {
        ActivationRollbackOperation::RemoveCreatedSymlink
        | ActivationRollbackOperation::RemoveCreatedWindowsShim
        | ActivationRollbackOperation::RemoveCreatedServiceMetadata => before is Some ==> after is Some,
        _ => left_or_emptied(before, after),
    }
}

/// An accepted entry replayed: the outcome is `replay_outcome_spec` of the
/// filesystem's answer; the path holds `restored_entry` where the step went
/// through (see `replay_failure_leaves` where it did not).
pub open spec fn replay_answered(
    before: Option<EntryView>,
    after: Option<EntryView>,
    e: RollbackView,
    out: OutcomeView,
    done: bool,
) -> bool {
    &&& out == replay_outcome_spec(e.operation, done)
    &&& done ==> after == restored_entry(e)
    &&& !done ==> replay_failure_leaves(e.operation, before, after)
}

/// Removes a link that a rollback entry says was created, if it is still
/// the created one.
fn replay_remove_created_link<F: ActivationFilesystem>(
    fs: &mut F,
    entry: &ActivationRollbackEntry,
    shim: bool,
) -> (out: ActivationAdapterOutcome)
    requires
        entry.operation == (if shim {
            ActivationRollbackOperation::RemoveCreatedWindowsShim
        } else {
            ActivationRollbackOperation::RemoveCreatedSymlink
        }),
    ensures
        replay_post(*old(fs), *final(fs), entry@, out@),
{
    let created = if shim {
        &entry.created_shim_target
    } else {
        &entry.created_symlink_target
    };
    let expected_target = match created {
        Some(t) => t,
        None => {
            return ActivationAdapterOutcome::conflict();
        },
    };
    let path = entry.path.as_str();
    let cur = fs.entry(path);
    let ghost before = *fs;
    let done = match link_of(&cur, shim) {
        Some((target, owner)) => {
            if !str_eq(target.as_str(), expected_target.as_str())
                || !owner_matches_rollback_expectation(&entry.created_owner, &owner) {
                return ActivationAdapterOutcome::conflict();
            }
            fs.remove_entry(path)
        },
        None => {
            if cur.is_some() {
                return ActivationAdapterOutcome::conflict();
            }
            true
        },
    };
    let out = replay_outcome(entry.operation, done);
    proof {
        assert(replay_answered(
            before.spec_entry(entry.path@),
            fs.spec_entry(entry.path@),
            entry@,
            out@,
            done,
        ));
    }
    out
}

/// Puts back a link that a rollback entry recorded.
fn replay_restore_link<F: ActivationFilesystem>(
    fs: &mut F,
    entry: &ActivationRollbackEntry,
    shim: bool,
) -> (out: ActivationAdapterOutcome)
    requires
        entry.operation == (if shim {
            ActivationRollbackOperation::RestoreOwnedWindowsShim
        } else {
            ActivationRollbackOperation::RestoreOwnedSymlink
        }),
    ensures
        replay_post(*old(fs), *final(fs), entry@, out@),
{
    let previous = if shim {
        &entry.previous_shim_target
    } else {
        &entry.previous_symlink_target
    };
    let target = match previous {
        Some(t) => t,
        None => {
            return ActivationAdapterOutcome::conflict();
        },
    };
    let owner = match &entry.previous_owner {
        Some(o) => o,
        None => {
            return ActivationAdapterOutcome::conflict();
        },
    };
    if !restore_precondition_matches(fs, entry, shim) {
        return ActivationAdapterOutcome::conflict();
    }
    let path = entry.path.as_str();
    let ghost before = *fs;
    if fs.create_parent_dirs_after_preflight(path).is_none() {
        let out = replay_outcome(entry.operation, false);
        proof {
            assert(dir_added_or_same(before.spec_entry(path@), fs.spec_entry(path@)));
            assert(replay_answered(
                before.spec_entry(entry.path@),
                fs.spec_entry(entry.path@),
                entry@,
                out@,
                false,
            ));
        }
        return out;
    }
    let ghost mid = *fs;
    assert(dir_added_or_same(before.spec_entry(path@), mid.spec_entry(path@)));
    let written = write_link(fs, shim, path, target.as_str(), owner);
    assert forall|p: Seq<char>| p != path@ implies dir_added_or_same(
        before.spec_entry(p),
        #[trigger] fs.spec_entry(p),
    ) by {
        assert(dir_added_or_same(before.spec_entry(p), mid.spec_entry(p)));
    }
    let out = replay_outcome(entry.operation, written);
    proof {
        assert(replay_answered(
            before.spec_entry(entry.path@),
            fs.spec_entry(entry.path@),
            entry@,
            out@,
            written,
        ));
    }
    out
}

/// Undoes one recorded change (see `replay_post`).
pub fn replay_activation_rollback_entry_with_fs<F: ActivationFilesystem>(
    fs: &mut F,
    entry: &ActivationRollbackEntry,
) -> (out: ActivationAdapterOutcome)
    ensures
        replay_post(*old(fs), *final(fs), entry@, out@),
{
    let path = entry.path.as_str();
    match entry.operation {
        ActivationRollbackOperation::RemoveCreatedSymlink => replay_remove_created_link(
            fs,
            entry,
            false,
        ),
        ActivationRollbackOperation::RemoveCreatedWindowsShim => replay_remove_created_link(
            fs,
            entry,
            true,
        ),
        ActivationRollbackOperation::RestoreOwnedSymlink => replay_restore_link(fs, entry, false),
        ActivationRollbackOperation::RestoreOwnedWindowsShim => replay_restore_link(fs, entry, true),
        ActivationRollbackOperation::RemoveCreatedServiceMetadata => {
            match fs.entry(path) {
                Some(ActivationFsEntry::ServiceMetadata { source, owner }) => {
                    let source_ok = match &entry.created_symlink_target {
                        Some(expected) => str_eq(expected.as_str(), source.as_str()),
                        None => true,
                    };
                    if !source_ok || !owner_matches_rollback_expectation(
                        &entry.created_owner,
                        &owner,
                    ) {
                        return ActivationAdapterOutcome::conflict();
                    }
                    let ghost before = *fs;
                    let removed = fs.remove_entry(path);
                    let out = replay_outcome(entry.operation, removed);
                    proof {
                        assert(replay_answered(
                            before.spec_entry(entry.path@),
                            fs.spec_entry(entry.path@),
                            entry@,
                            out@,
                            removed,
                        ));
                    }
                    out
                },
                Some(_) => ActivationAdapterOutcome::conflict(),
                None => {
                    let out = replay_outcome(entry.operation, true);
                    proof {
                        assert(replay_answered(
                            fs.spec_entry(entry.path@),
                            fs.spec_entry(entry.path@),
                            entry@,
                            out@,
                            true,
                        ));
                    }
                    out
                },
            }
        },
        ActivationRollbackOperation::RestoreOwnedServiceMetadata => {
            let source = match &entry.previous_symlink_target {
                Some(s) => s,
                None => {
                    return ActivationAdapterOutcome::conflict();
                },
            };
            let owner = match &entry.previous_owner {
                Some(o) => o,
                None => {
                    return ActivationAdapterOutcome::conflict();
                },
            };
            match fs.entry(path) {
                Some(ActivationFsEntry::ServiceMetadata { source: current, owner: current_owner }) => {
                    let source_ok = match &entry.expected_current_symlink_target {
                        Some(expected) => str_eq(expected.as_str(), current.as_str()),
                        None => true,
                    };
                    if !source_ok || !owner_matches_rollback_expectation(
                        &entry.expected_current_owner,
                        &current_owner,
                    ) {
                        return ActivationAdapterOutcome::conflict();
                    }
                },
                None => {
                    if entry.expected_current_symlink_target.is_some() {
                        return ActivationAdapterOutcome::conflict();
                    }
                },
                Some(_) => {
                    return ActivationAdapterOutcome::conflict();
                },
            }
            let ghost before = *fs;
            let written = fs.write_owned_service_metadata_for(
                path,
                source.as_str(),
                owner.package_state_key.as_str(),
                owner.package.as_str(),
                owner.integration_key.as_str(),
            );
            let out = replay_outcome(entry.operation, written);
            proof {
                assert(replay_answered(
                    before.spec_entry(entry.path@),
                    fs.spec_entry(entry.path@),
                    entry@,
                    out@,
                    written,
                ));
            }
            out
        },
    }
}

// ---------------------------------------------------------------------------
// laws

/// Whether a plan's exposure is a Windows shim rather than a symlink.
pub open spec fn plan_link_is_shim(plan: PlanView, platform: HostPlatform) -> bool {
    plan.kind == "path_plugin"@ && path_link_is_shim(platform)
}

/// A plan applied with success leaves its own link, pointing at its
/// source, at its host path.
pub proof fn lemma_applied_plan_is_exposed<F: ActivationFilesystem>(
    before: F,
    after: F,
    plan: PlanView,
    out: OutcomeView,
)
    requires
        integration_apply_post(before, after, plan, out),
        out.reason_code == IntegrationReasonCode::Success,
    ensures
        after.spec_entry(plan.host_path) == owned_link(
            plan_link_is_shim(plan, before.spec_platform()),
            plan.source_path,
            plan_owner(plan),
        ),
{
    reveal_strlit("docker_cli_plugin");
    reveal_strlit("path_plugin");
    assert("docker_cli_plugin"@.len() != "path_plugin"@.len());
}

/// A plan disabled with success leaves nothing at its host path.
pub proof fn lemma_disabled_plan_is_gone<F: ActivationFilesystem>(
    before: F,
    after: F,
    plan: PlanView,
    out: OutcomeView,
)
    requires
        integration_disable_post(before, after, plan, out),
        out.reason_code == IntegrationReasonCode::Success,
    ensures
        after.spec_entry(plan.host_path) is None,
{
}

/// A path is not among its own ancestors (true of every path but a root
/// such as `/` or `C:\`).
pub open spec fn not_own_ancestor(platform: HostPlatform, path: Seq<char>) -> bool {
    !ancestor_chain(platform, path).contains(path)
}

proof fn lemma_ancestors_kept<F: ActivationFilesystem>(before: F, after: F, path: Seq<char>, dirs: Seq<Seq<char>>)
    requires
        parent_dirs_spec(before, path) is Some,
        same_host(before, after),
        not_own_ancestor(before.spec_platform(), path) || (before.spec_entry(path) is Some
            && before.spec_entry(path) != Some(EntryView::Directory)),
        forall|p: Seq<char>|
            p != path ==> #[trigger] after.spec_entry(p) == if dirs.contains(p) {
                Some(EntryView::Directory)
            } else {
                before.spec_entry(p)
            },
    ensures
        parent_dirs_spec(after, path) is Some,
{
    let chain = ancestor_chain(before.spec_platform(), path);
    let outer = chain.reverse();
    let eb = |p: Seq<char>| before.spec_entry(p);
    let ea = |p: Seq<char>| after.spec_entry(p);
    if chain.contains(path) {
        // a path among its own ancestors that holds a non-directory has no
        // parent directories to create
        let i = choose|i: int| 0 <= i < chain.len() && chain[i] == path;
        let k = chain.len() - 1 - i;
        assert(outer[k] == path);
        assert(eb(outer[k]) is Some && eb(outer[k]) != Some(EntryView::Directory));
        assert(parent_dirs_spec(before, path) is None);
    }
    assert forall|k: int| 0 <= k < outer.len() implies !(#[trigger] ea(outer[k]) is Some && ea(
        outer[k],
    ) != Some(EntryView::Directory)) by {
        assert(outer[k] == ancestor_chain(before.spec_platform(), path)[outer.len() - 1 - k]);
        assert(outer[k] != path);
        assert(!(eb(outer[k]) is Some && eb(outer[k]) != Some(EntryView::Directory)));
    }
}

/// On a reliable filesystem, an activation that wrote its link leaves
/// every ancestor of the host path a directory.
pub proof fn lemma_apply_creates_ancestors<F: ActivationFilesystem>(
    before: F,
    applied: F,
    plan: PlanView,
    out: OutcomeView,
)
    requires
        before.spec_reliable(),
        not_own_ancestor(before.spec_platform(), plan.host_path),
        integration_apply_post(before, applied, plan, out),
        out.rollback.len() > 0,
    ensures
        forall|q: Seq<char>|
            ancestor_chain(before.spec_platform(), plan.host_path).contains(q) ==> #[trigger] applied.spec_entry(q)
                == Some(EntryView::Directory),
{
    broadcast use vstd::seq_lib::group_filter_ensures;

    reveal_strlit("docker_cli_plugin");
    reveal_strlit("path_plugin");
    assert("docker_cli_plugin"@.len() != "path_plugin"@.len());
    let host = plan.host_path;
    let chain = ancestor_chain(before.spec_platform(), host);
    let outer = chain.reverse();
    let eb = |p: Seq<char>| before.spec_entry(p);
    let missing = |q: Seq<char>| eb(q) is None;
    let ds = parent_dirs_spec(before, host)->0;
    assert(ds == outer.filter(missing));
    assert forall|q: Seq<char>| chain.contains(q) implies #[trigger] applied.spec_entry(q)
        == Some(EntryView::Directory) by {
        let i = choose|i: int| 0 <= i < chain.len() && chain[i] == q;
        let k = chain.len() - 1 - i;
        assert(outer[k] == q);
        assert(!(eb(outer[k]) is Some && eb(outer[k]) != Some(EntryView::Directory)));
        if eb(q) is None {
            assert(outer.filter(missing).contains(outer[k]));
        }
    }
}

/// Every in-memory filesystem is reliable: its writes and removals always
/// succeed, and it creates a path's missing ancestors unless one of them is
/// not a directory.
pub proof fn lemma_memory_fs_reliable(fs: MemoryActivationFs)
    ensures
        fs.spec_reliable(),
{
    crate::memory_fs::lemma_reliable(fs);
}

/// On a reliable filesystem (`lemma_memory_fs_reliable`), for every host
/// path: replaying the rollback entry of a change that applying a Docker or
/// PATH plugin made succeeds, puts back what stood at the host path before
/// the activation, and reports the plugin stopped where nothing stood and
/// enabled where its earlier link was put back.
pub proof fn lemma_apply_undone_by_rollback<F: ActivationFilesystem>(
    before: F,
    applied: F,
    undone: F,
    plan: PlanView,
    out: OutcomeView,
    replay_out: OutcomeView,
)
    requires
        before.spec_reliable(),
        docker_apply_post(before, applied, plan, out) || path_apply_post(before, applied, plan, out)
            || integration_apply_post(before, applied, plan, out),
        out.rollback.len() > 0,
        replay_post(applied, undone, out.rollback[0], replay_out),
    ensures
        out.rollback[0].path == plan.host_path,
        replay_accepts(out.rollback[0], applied.spec_entry(plan.host_path)),
        replay_out.reason_code == IntegrationReasonCode::Success,
        replay_out.applied_state == if before.spec_entry(plan.host_path) is None {
            IntegrationAppliedState::Stopped
        } else {
            IntegrationAppliedState::Enabled
        },
        undone.spec_entry(plan.host_path) == before.spec_entry(plan.host_path),
{
    reveal_strlit("docker_cli_plugin");
    reveal_strlit("path_plugin");
    assert("docker_cli_plugin"@.len() != "path_plugin"@.len());
    let shim = if docker_apply_post(before, applied, plan, out) {
        false
    } else if path_apply_post(before, applied, plan, out) {
        path_link_is_shim(before.spec_platform())
    } else if plan.kind == "docker_cli_plugin"@ {
        false
    } else {
        path_link_is_shim(before.spec_platform())
    };
    assert(link_apply_post(before, applied, plan, out, shim));
    lemma_link_apply_undone(before, applied, undone, plan, out, replay_out, shim);
}

/// `lemma_apply_undone_by_rollback` for either kind of link.
proof fn lemma_link_apply_undone<F: ActivationFilesystem>(
    before: F,
    applied: F,
    undone: F,
    plan: PlanView,
    out: OutcomeView,
    replay_out: OutcomeView,
    shim: bool,
)
    requires
        before.spec_reliable(),
        link_apply_post(before, applied, plan, out, shim),
        out.rollback.len() > 0,
        replay_post(applied, undone, out.rollback[0], replay_out),
    ensures
        out.rollback[0].path == plan.host_path,
        replay_accepts(out.rollback[0], applied.spec_entry(plan.host_path)),
        replay_out.reason_code == IntegrationReasonCode::Success,
        replay_out.applied_state == if before.spec_entry(plan.host_path) is None {
            IntegrationAppliedState::Stopped
        } else {
            IntegrationAppliedState::Enabled
        },
        undone.spec_entry(plan.host_path) == before.spec_entry(plan.host_path),
{
    let host = plan.host_path;
    let ds = parent_dirs_spec(before, host)->0;
    if out.rollback[0].operation == ActivationRollbackOperation::RestoreOwnedSymlink
        || out.rollback[0].operation == ActivationRollbackOperation::RestoreOwnedWindowsShim {
        lemma_ancestors_kept(before, applied, host, ds);
    }
}

/// On a reliable filesystem, replaying the rollback entry of a disabling
/// succeeds and puts the plan's link back, wherever the host path's
/// ancestors are all directories or missing.
pub proof fn lemma_disable_undone_by_rollback<F: ActivationFilesystem>(
    before: F,
    disabled: F,
    undone: F,
    plan: PlanView,
    out: OutcomeView,
    replay_out: OutcomeView,
)
    requires
        before.spec_reliable(),
        parent_dirs_spec(before, plan.host_path) is Some,
        docker_disable_post(before, disabled, plan, out) || path_disable_post(
            before,
            disabled,
            plan,
            out,
        ) || integration_disable_post(before, disabled, plan, out),
        out.rollback.len() > 0,
        replay_post(disabled, undone, out.rollback[0], replay_out),
    ensures
        out.rollback[0].path == plan.host_path,
        replay_accepts(out.rollback[0], disabled.spec_entry(plan.host_path)),
        replay_out.reason_code == IntegrationReasonCode::Success,
        undone.spec_entry(plan.host_path) == before.spec_entry(plan.host_path),
{
    reveal_strlit("docker_cli_plugin");
    reveal_strlit("path_plugin");
    assert("docker_cli_plugin"@.len() != "path_plugin"@.len());
    lemma_ancestors_kept(before, disabled, plan.host_path, Seq::empty());
}

} // verus!
