//! The filesystem that activation adapters work on: what can stand at a host
//! path, who owns it, the operations an adapter performs, and an in-memory
//! filesystem that realises them exactly.
use vstd::prelude::*;

use crate::assoc::{assoc_find, assoc_get, assoc_insert, assoc_remove};
use crate::text::{chars_of, ends_with_str, str_eq, string_of};
use crate::memory_fs::ancestor_chain;
use crate::types::{strings_view, HostPlatform, IntegrationActivationPlan, PlanView};

verus! {

/// The package integration that owns a host exposure.
#[derive(Clone, Debug, PartialEq, Eq)]
pub struct ActivationOwner {
    pub package_state_key: String,
    pub package: String,
    pub integration_key: String,
}

pub struct OwnerView {
    pub package_state_key: Seq<char>,
    pub package: Seq<char>,
    pub integration_key: Seq<char>,
}

impl View for ActivationOwner {
    type V = OwnerView;

    open spec fn view(&self) -> OwnerView {
        OwnerView {
            package_state_key: self.package_state_key@,
            package: self.package@,
            integration_key: self.integration_key@,
        }
    }
}

pub open spec fn owner_opt_view(o: Option<ActivationOwner>) -> Option<OwnerView> {
    match o {
        Some(x) => Some(x@),
        None => None,
    }
}

/// The owner that a plan's exposure is recorded under.
pub open spec fn plan_owner(p: PlanView) -> OwnerView {
    OwnerView {
        package_state_key: p.package_state_key,
        package: p.package,
        integration_key: p.integration_key,
    }
}

/// The owner recorded for what a plan exposes.
pub fn owner_for_plan(plan: &IntegrationActivationPlan) -> (r: ActivationOwner)
    ensures
        r@ == plan_owner(plan@),
{
    ActivationOwner {
        package_state_key: plan.package_state_key.clone(),
        package: plan.package.clone(),
        integration_key: plan.integration_key.clone(),
    }
}

/// A copy of an owner.
pub fn copy_owner(o: &ActivationOwner) -> (r: ActivationOwner)
    ensures
        r@ == o@,
{
    ActivationOwner {
        package_state_key: o.package_state_key.clone(),
        package: o.package.clone(),
        integration_key: o.integration_key.clone(),
    }
}

pub fn copy_owner_opt(o: &Option<ActivationOwner>) -> (r: Option<ActivationOwner>)
    ensures
        owner_opt_view(r) == owner_opt_view(*o),
{
    match o {
        Some(x) => Some(copy_owner(x)),
        None => None,
    }
}

/// Whether two owners name the same package integration.
pub fn same_owner(a: &ActivationOwner, b: &ActivationOwner) -> (r: bool)
    ensures
        r == (a@ == b@),
{
    str_eq(a.package_state_key.as_str(), b.package_state_key.as_str()) && str_eq(
        a.package.as_str(),
        b.package.as_str(),
    ) && str_eq(a.integration_key.as_str(), b.integration_key.as_str())
}

/// Whether an optional owner is exactly `expected`.
pub fn owner_is(o: &Option<ActivationOwner>, expected: &ActivationOwner) -> (r: bool)
    ensures
        r == (owner_opt_view(*o) == Some(expected@)),
{
    match o {
        Some(x) => same_owner(x, expected),
        None => false,
    }
}

/// What stands at a host path.
#[derive(Clone, Debug, PartialEq, Eq)]
pub enum ActivationFsEntry {
    File,
    Symlink { target: String, owner: Option<ActivationOwner> },
    WindowsShim { target: String, owner: Option<ActivationOwner> },
    ServiceMetadata { source: String, owner: Option<ActivationOwner> },
    Directory,
}

pub enum EntryView {
    File,
    Symlink { target: Seq<char>, owner: Option<OwnerView> },
    WindowsShim { target: Seq<char>, owner: Option<OwnerView> },
    ServiceMetadata { source: Seq<char>, owner: Option<OwnerView> },
    Directory,
}

impl View for ActivationFsEntry {
    type V = EntryView;

    open spec fn view(&self) -> EntryView {
        match self {
            ActivationFsEntry::File => EntryView::File,
            ActivationFsEntry::Symlink { target, owner } => EntryView::Symlink {
                target: target@,
                owner: owner_opt_view(*owner),
            },
            ActivationFsEntry::WindowsShim { target, owner } => EntryView::WindowsShim {
                target: target@,
                owner: owner_opt_view(*owner),
            },
            ActivationFsEntry::ServiceMetadata { source, owner } => EntryView::ServiceMetadata {
                source: source@,
                owner: owner_opt_view(*owner),
            },
            ActivationFsEntry::Directory => EntryView::Directory,
        }
    }
}

pub open spec fn entry_opt_view(e: Option<ActivationFsEntry>) -> Option<EntryView> {
    match e {
        Some(x) => Some(x@),
        None => None,
    }
}

/// An owned symlink as a view.
pub open spec fn owned_symlink(target: Seq<char>, owner: OwnerView) -> Option<EntryView> {
    Some(EntryView::Symlink { target, owner: Some(owner) })
}

pub open spec fn owned_shim(target: Seq<char>, owner: OwnerView) -> Option<EntryView> {
    Some(EntryView::WindowsShim { target, owner: Some(owner) })
}

pub open spec fn owned_service_metadata(source: Seq<char>, owner: OwnerView) -> Option<EntryView> {
    Some(EntryView::ServiceMetadata { source, owner: Some(owner) })
}

/// A path either keeps its entry or, where nothing stood, gains a directory.
pub open spec fn dir_added_or_same(before: Option<EntryView>, after: Option<EntryView>) -> bool {
    after == before || (before is None && after == Some(EntryView::Directory))
}

/// What a write that failed may leave at its path: what stood there, or
/// nothing.
pub open spec fn failed_write_leaves(before: Option<EntryView>, after: Option<EntryView>) -> bool {
    after == before || after is None
}

/// The ancestors of `path` to create, outermost first (see
/// `ancestor_chain`), where `entries` tells what stands at each path:
/// `None` when one of them exists and is not a directory, else those where
/// nothing stands.
pub open spec fn parent_dirs_of(
    platform: HostPlatform,
    entries: spec_fn(Seq<char>) -> Option<EntryView>,
    path: Seq<char>,
) -> Option<Seq<Seq<char>>> {
    let outer = ancestor_chain(platform, path).reverse();
    if exists|k: int|
        0 <= k < outer.len() && #[trigger] entries(outer[k]) is Some && entries(outer[k]) != Some(
            EntryView::Directory,
        ) {
        None
    } else {
        Some(outer.filter(|q: Seq<char>| entries(q) is None))
    }
}

/// `after` holds directories at `dirs` and what `before` holds elsewhere.
pub open spec fn dirs_added_to(
    before: spec_fn(Seq<char>) -> Option<EntryView>,
    after: spec_fn(Seq<char>) -> Option<EntryView>,
    dirs: Seq<Seq<char>>,
) -> bool {
    forall|p: Seq<char>|
        #[trigger] after(p) == if dirs.contains(p) {
            Some(EntryView::Directory)
        } else {
            before(p)
        }
}

/// The missing ancestors of `path` in `fs` (see `parent_dirs_of`).
pub open spec fn parent_dirs_spec<F: ActivationFilesystem>(fs: F, path: Seq<char>) -> Option<
    Seq<Seq<char>>,
> {
    parent_dirs_of(fs.spec_platform(), |p: Seq<char>| fs.spec_entry(p), path)
}

/// `after` is `before` with directories at `dirs`.
pub open spec fn dirs_added<F: ActivationFilesystem>(before: F, after: F, dirs: Seq<Seq<char>>) -> bool {
    dirs_added_to(|p: Seq<char>| before.spec_entry(p), |p: Seq<char>| after.spec_entry(p), dirs)
}

/// `dirs_added`, path by path.
pub proof fn lemma_dirs_added<F: ActivationFilesystem>(before: F, after: F, dirs: Seq<Seq<char>>)
    requires
        dirs_added(before, after, dirs),
    ensures
        forall|p: Seq<char>|
            #[trigger] after.spec_entry(p) == if dirs.contains(p) {
                Some(EntryView::Directory)
            } else {
                before.spec_entry(p)
            },
{
    let a = |q: Seq<char>| after.spec_entry(q);
    let b = |q: Seq<char>| before.spec_entry(q);
    assert forall|p: Seq<char>|
        #[trigger] after.spec_entry(p) == if dirs.contains(p) {
            Some(EntryView::Directory)
        } else {
            before.spec_entry(p)
        } by {
        assert(a(p) == after.spec_entry(p));
        assert(b(p) == before.spec_entry(p));
    }
}

/// The filesystem operations of the activation adapters. `spec_entry` is
/// what the filesystem holds at each path; every operation states how it
/// changes that and leaves the platform, symlink support and reliability
/// alone. A reliable filesystem carries out every operation it is asked
/// for: it creates a path's missing ancestors unless one of them is not a
/// directory, and its writes and removals succeed.
pub trait ActivationFilesystem: Sized {
    // Implementations outside Verus cannot define spec functions, so each
    // has a body; every implementation in this crate gives its own.
    /// What stands at `path`.
    open spec fn spec_entry(&self, path: Seq<char>) -> Option<EntryView> {
        None
    }

    open spec fn spec_platform(&self) -> HostPlatform {
        HostPlatform::Linux
    }

    open spec fn spec_symlink_supported(&self) -> bool {
        true
    }

    /// Whether every operation is carried out; not assumed of an
    /// implementation that does not say so.
    open spec fn spec_reliable(&self) -> bool {
        false
    }

    fn platform(&self) -> (r: HostPlatform)
        ensures
            r == self.spec_platform(),
    ;

    fn symlink_supported(&self) -> (r: bool)
        ensures
            r == self.spec_symlink_supported(),
    ;

    fn entry(&self, path: &str) -> (r: Option<ActivationFsEntry>)
        ensures
            entry_opt_view(r) == self.spec_entry(path@),
    ;

    /// Creates the missing parent directories of `path`; `None` when they
    /// cannot be created. Only directories are ever added; a reliable
    /// filesystem adds exactly `parent_dirs_spec` and answers with them.
    fn create_parent_dirs_after_preflight(&mut self, path: &str) -> (r: Option<Vec<String>>)
        ensures
            final(self).spec_platform() == old(self).spec_platform(),
            final(self).spec_symlink_supported() == old(self).spec_symlink_supported(),
            final(self).spec_reliable() == old(self).spec_reliable(),
            forall|p: Seq<char>|
                dir_added_or_same(old(self).spec_entry(p), #[trigger] final(self).spec_entry(p)),
            old(self).spec_reliable() ==> match parent_dirs_of(
                old(self).spec_platform(),
                |p: Seq<char>| old(self).spec_entry(p),
                path@,
            ) {
                Some(ds) => r is Some && strings_view(r->0@) == ds && dirs_added_to(
                    |p: Seq<char>| old(self).spec_entry(p),
                    |p: Seq<char>| final(self).spec_entry(p),
                    ds,
                ),
                None => r is None && dirs_added_to(
                    |p: Seq<char>| old(self).spec_entry(p),
                    |p: Seq<char>| final(self).spec_entry(p),
                    Seq::empty(),
                ),
            },
    ;

    /// Puts an owned symlink at `path`; other paths keep their entries. A
    /// write that fails leaves `path` as it was or empty.
    fn write_owned_symlink_for(
        &mut self,
        path: &str,
        target: &str,
        package_state_key: &str,
        package: &str,
        integration_key: &str,
    ) -> (written: bool)
        ensures
            final(self).spec_platform() == old(self).spec_platform(),
            final(self).spec_symlink_supported() == old(self).spec_symlink_supported(),
            final(self).spec_reliable() == old(self).spec_reliable(),
            old(self).spec_reliable() ==> written,
            !written ==> failed_write_leaves(
                old(self).spec_entry(path@),
                final(self).spec_entry(path@),
            ),
            written ==> final(self).spec_entry(path@) == owned_symlink(
                target@,
                OwnerView {
                    package_state_key: package_state_key@,
                    package: package@,
                    integration_key: integration_key@,
                },
            ),
            forall|p: Seq<char>|
                p != path@ ==> #[trigger] final(self).spec_entry(p) == old(self).spec_entry(p),
    ;

    /// Puts an owned Windows shim at `path`; other paths keep their entries.
    /// A write that fails leaves `path` as it was or empty.
    fn write_owned_shim_for(
        &mut self,
        path: &str,
        target: &str,
        package_state_key: &str,
        package: &str,
        integration_key: &str,
    ) -> (written: bool)
        ensures
            final(self).spec_platform() == old(self).spec_platform(),
            final(self).spec_symlink_supported() == old(self).spec_symlink_supported(),
            final(self).spec_reliable() == old(self).spec_reliable(),
            old(self).spec_reliable() ==> written,
            !written ==> failed_write_leaves(
                old(self).spec_entry(path@),
                final(self).spec_entry(path@),
            ),
            written ==> final(self).spec_entry(path@) == owned_shim(
                target@,
                OwnerView {
                    package_state_key: package_state_key@,
                    package: package@,
                    integration_key: integration_key@,
                },
            ),
            forall|p: Seq<char>|
                p != path@ ==> #[trigger] final(self).spec_entry(p) == old(self).spec_entry(p),
    ;

    /// Puts owned service metadata at `path`; a filesystem that keeps none
    /// refuses (and is not reliable).
    fn write_owned_service_metadata_for(
        &mut self,
        path: &str,
        source: &str,
        package_state_key: &str,
        package: &str,
        integration_key: &str,
    ) -> (written: bool)
        ensures
            final(self).spec_platform() == old(self).spec_platform(),
            final(self).spec_symlink_supported() == old(self).spec_symlink_supported(),
            final(self).spec_reliable() == old(self).spec_reliable(),
            old(self).spec_reliable() ==> written,
            !written ==> failed_write_leaves(
                old(self).spec_entry(path@),
                final(self).spec_entry(path@),
            ),
            written ==> final(self).spec_entry(path@) == owned_service_metadata(
                source@,
                OwnerView {
                    package_state_key: package_state_key@,
                    package: package@,
                    integration_key: integration_key@,
                },
            ),
            forall|p: Seq<char>|
                p != path@ ==> #[trigger] final(self).spec_entry(p) == old(self).spec_entry(p),
    ;

    /// Removes what stands at `path`; other paths keep their entries. A
    /// removal that fails leaves something where something stood.
    fn remove_entry(&mut self, path: &str) -> (removed: bool)
        ensures
            final(self).spec_platform() == old(self).spec_platform(),
            final(self).spec_symlink_supported() == old(self).spec_symlink_supported(),
            final(self).spec_reliable() == old(self).spec_reliable(),
            removed ==> final(self).spec_entry(path@) is None,
            !removed && old(self).spec_entry(path@) is Some ==> final(self).spec_entry(path@) is Some,
            old(self).spec_reliable() ==> final(self).spec_entry(path@) is None && (old(
                self,
            ).spec_entry(path@) is Some ==> removed),
            forall|p: Seq<char>|
                p != path@ ==> #[trigger] final(self).spec_entry(p) == old(self).spec_entry(p),
    ;
}

} // verus!
