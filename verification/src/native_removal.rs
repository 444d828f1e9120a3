//! Undoing native registrations: what each recorded kind removes, the
//! order and the warnings of a best-effort deregistration, and whether the
//! package's native state is cleared or kept afterwards.
use vstd::prelude::*;

use crate::native_gui::{records_view, strs_view};
use crate::paths::{path_key, same_path_on, PathKey};
use crate::text::{chars_eq_str, chars_of, extend_str, str_eq, string_of_vec};
use crate::types::{GuiNativeRegistrationRecord, HostPlatform, NativeUninstallAction, TripleView};

verus! {

/// How a recorded native entry is removed. A missing entry counts as
/// removed.
#[derive(Clone, Debug, PartialEq, Eq)]
pub enum NativeRemoval {
    /// A file, or an empty directory.
    Path { path: String },
    /// A link or file in an applications directory; a real directory there
    /// is left alone.
    ApplicationsSymlink { path: String },
    /// A directory and everything in it.
    Tree { path: String },
    /// A Windows registry key, when it exists.
    RegistryKey { path: String },
}

pub enum RemovalView {
    Path { path: Seq<char> },
    ApplicationsSymlink { path: Seq<char> },
    Tree { path: Seq<char> },
    RegistryKey { path: Seq<char> },
}

impl View for NativeRemoval {
    type V = RemovalView;

    open spec fn view(&self) -> RemovalView {
        match self {
            NativeRemoval::Path { path } => RemovalView::Path { path: path@ },
            NativeRemoval::ApplicationsSymlink { path } => RemovalView::ApplicationsSymlink {
                path: path@,
            },
            NativeRemoval::Tree { path } => RemovalView::Tree { path: path@ },
            NativeRemoval::RegistryKey { path } => RemovalView::RegistryKey { path: path@ },
        }
    }
}

/// Why a recorded uninstall action cannot run.
#[derive(Clone, Debug, PartialEq, Eq)]
pub enum NativeUninstallError {
    UnsupportedKind { kind: String },
    RegistryKeyNeedsWindows,
}

pub enum UninstallErrorView {
    UnsupportedKind { kind: Seq<char> },
    RegistryKeyNeedsWindows,
}

impl View for NativeUninstallError {
    type V = UninstallErrorView;

    open spec fn view(&self) -> UninstallErrorView {
        match self {
            NativeUninstallError::UnsupportedKind { kind } => UninstallErrorView::UnsupportedKind {
                kind: kind@,
            },
            NativeUninstallError::RegistryKeyNeedsWindows => UninstallErrorView::RegistryKeyNeedsWindows,
        }
    }
}

impl NativeUninstallError {
    pub open spec fn message_spec(self) -> Seq<char> {
        match self {
            NativeUninstallError::UnsupportedKind { kind } => "unsupported native uninstall action kind '"@
                + kind@ + "'"@,
            NativeUninstallError::RegistryKeyNeedsWindows => "native uninstall action kind 'registry-key' is supported only on Windows hosts"@,
        }
    }

    /// A human-readable description.
    pub fn message(&self) -> (r: String)
        ensures
            r@ == self.message_spec(),
    {
        match self {
            NativeUninstallError::UnsupportedKind { kind } => {
                let mut v: Vec<char> = Vec::new();
                extend_str(&mut v, "unsupported native uninstall action kind '");
                extend_str(&mut v, kind.as_str());
                extend_str(&mut v, "'");
                string_of_vec(&v)
            },
            NativeUninstallError::RegistryKeyNeedsWindows => String::from_str(
                "native uninstall action kind 'registry-key' is supported only on Windows hosts",
            ),
        }
    }
}

/// The removal a recorded kind of file entry asks for, if it is one.
pub open spec fn file_removal_spec(kind: Seq<char>, path: Seq<char>) -> Option<RemovalView> {
    if kind == "desktop-entry"@ || kind == "start-menu-launcher"@ {
        Some(RemovalView::Path { path })
    } else if kind == "applications-symlink"@ {
        Some(RemovalView::ApplicationsSymlink { path })
    } else if kind == "applications-bundle-copy"@ {
        Some(RemovalView::Tree { path })
    } else {
        None
    }
}

fn file_removal(kind: &str, path: &str) -> (r: Option<NativeRemoval>)
    ensures
        match r {
            Some(x) => file_removal_spec(kind@, path@) == Some(x@),
            None => file_removal_spec(kind@, path@) is None,
        },
{
    let k = chars_of(kind);
    let k = k.as_slice();
    if chars_eq_str(k, "desktop-entry") || chars_eq_str(k, "start-menu-launcher") {
        Some(NativeRemoval::Path { path: String::from_str(path) })
    } else if chars_eq_str(k, "applications-symlink") {
        Some(NativeRemoval::ApplicationsSymlink { path: String::from_str(path) })
    } else if chars_eq_str(k, "applications-bundle-copy") {
        Some(NativeRemoval::Tree { path: String::from_str(path) })
    } else {
        None
    }
}

/// What running a recorded uninstall action removes: file entries by their
/// kind, registry keys only on Windows; any other kind is refused.
pub open spec fn uninstall_removal_spec(a: TripleView, platform: HostPlatform) -> Result<
    RemovalView,
    UninstallErrorView,
> {
    match file_removal_spec(a.kind, a.path) {
        Some(x) => Ok(x),
        None => if a.kind == "registry-key"@ {
            if platform == HostPlatform::Windows {
                Ok(RemovalView::RegistryKey { path: a.path })
            } else {
                Err(UninstallErrorView::RegistryKeyNeedsWindows)
            }
        } else {
            Err(UninstallErrorView::UnsupportedKind { kind: a.kind })
        },
    }
}

/// What running `action` removes (see `uninstall_removal_spec`).
pub fn native_uninstall_removal(action: &NativeUninstallAction, platform: HostPlatform) -> (r: Result<
    NativeRemoval,
    NativeUninstallError,
>)
    ensures
        match r {
            Ok(x) => uninstall_removal_spec(action@, platform) == Ok::<RemovalView, UninstallErrorView>(x@),
            Err(e) => uninstall_removal_spec(action@, platform) == Err::<RemovalView, UninstallErrorView>(e@),
        },
{
    match file_removal(action.kind.as_str(), action.path.as_str()) {
        Some(x) => Ok(x),
        None => {
            if str_eq(action.kind.as_str(), "registry-key") {
                if platform == HostPlatform::Windows {
                    Ok(NativeRemoval::RegistryKey { path: action.path.clone() })
                } else {
                    Err(NativeUninstallError::RegistryKeyNeedsWindows)
                }
            } else {
                Err(NativeUninstallError::UnsupportedKind { kind: action.kind.clone() })
            }
        },
    }
}

/// The context a failed uninstall action is reported with.
pub fn native_uninstall_failure_context(action: &NativeUninstallAction) -> (r: String)
    ensures
        r@ == "native uninstall action failed (key='"@ + action@.key + "', kind='"@ + action@.kind
            + "', path='"@ + action@.path + "')"@,
{
    let mut v: Vec<char> = Vec::new();
    extend_str(&mut v, "native uninstall action failed (key='");
    extend_str(&mut v, action.key.as_str());
    extend_str(&mut v, "', kind='");
    extend_str(&mut v, action.kind.as_str());
    extend_str(&mut v, "', path='");
    extend_str(&mut v, action.path.as_str());
    extend_str(&mut v, "')");
    string_of_vec(&v)
}

// ---------------------------------------------------------------------------
// deregistration

/// One step of undoing a package's native GUI registrations.
#[derive(Clone, Debug, PartialEq, Eq)]
pub enum DeregistrationStep {
    Remove(NativeRemoval),
    /// `reg delete <path> /f`.
    DeleteRegistryKey { path: String },
    /// Nothing to do but warn.
    Warn(String),
}

pub enum DeregView {
    Remove(RemovalView),
    DeleteRegistryKey { path: Seq<char> },
    Warn(Seq<char>),
}

impl View for DeregistrationStep {
    type V = DeregView;

    open spec fn view(&self) -> DeregView {
        match self {
            DeregistrationStep::Remove(x) => DeregView::Remove(x@),
            DeregistrationStep::DeleteRegistryKey { path } => DeregView::DeleteRegistryKey {
                path: path@,
            },
            DeregistrationStep::Warn(w) => DeregView::Warn(w@),
        }
    }
}

pub open spec fn dereg_prefix() -> Seq<char> {
    "native GUI deregistration warning: "@
}

pub open spec fn dereg_steps_view(v: Seq<DeregistrationStep>) -> Seq<DeregView> {
    v.map_values(|s: DeregistrationStep| s@)
}

/// The host whose path rules a deregistration compares paths by.
pub open spec fn key_host(windows: bool) -> HostPlatform {
    if windows {
        HostPlatform::Windows
    } else {
        HostPlatform::Linux
    }
}

/// The steps undoing `records`, in order, given the keys (`path_key`) of
/// the file paths already taken care of: each file entry is removed once,
/// by the first record that names that path, however it is spelled;
/// registry keys are deleted on Windows and only warned about elsewhere;
/// records of an unknown kind are warned about.
pub open spec fn dereg_from(
    records: Seq<TripleView>,
    windows: bool,
    seen: Seq<PathKey>,
) -> Seq<DeregView>
    decreases records.len(),
{
    if records.len() == 0 {
        Seq::empty()
    } else {
        let r = records[0];
        let rest = records.drop_first();
        match file_removal_spec(r.kind, r.path) {
            Some(x) => if seen.contains(path_key(key_host(windows), r.path)) {
                dereg_from(rest, windows, seen)
            } else {
                seq![DeregView::Remove(x)] + dereg_from(
                    rest,
                    windows,
                    seen.push(path_key(key_host(windows), r.path)),
                )
            },
            None => if r.kind == "registry-key"@ {
                if windows {
                    seq![DeregView::DeleteRegistryKey { path: r.path }] + dereg_from(
                        rest,
                        windows,
                        seen,
                    )
                } else {
                    seq![
                        DeregView::Warn(
                            dereg_prefix() + "skipped Windows registry cleanup '"@ + r.path
                                + "' on non-Windows host"@,
                        ),
                    ] + dereg_from(rest, windows, seen)
                }
            } else {
                seq![
                    DeregView::Warn(
                        dereg_prefix() + "unsupported registration kind '"@ + r.kind
                            + "' for key '"@ + r.key + "'"@,
                    ),
                ] + dereg_from(rest, windows, seen)
            },
        }
    }
}

/// The keys of the paths `seen`.
pub open spec fn seen_keys(windows: bool, seen: Seq<Seq<char>>) -> Seq<PathKey> {
    seen.map_values(|p: Seq<char>| path_key(key_host(windows), p))
}

fn seen_contains(seen: &Vec<String>, path: &str, windows: bool) -> (r: bool)
    ensures
        r == seen_keys(windows, strs_view(seen@)).contains(path_key(key_host(windows), path@)),
{
    let platform = if windows {
        HostPlatform::Windows
    } else {
        HostPlatform::Linux
    };
    let ghost keys = seen_keys(windows, strs_view(seen@));
    let n = seen.len();
    let mut i: usize = 0;
    while i < n
        invariant
            n == seen@.len(),
            i <= n,
            platform == key_host(windows),
            keys == seen_keys(windows, strs_view(seen@)),
            forall|k: int| 0 <= k < i ==> keys[k] != path_key(platform, path@),
        decreases n - i,
    {
        if same_path_on(platform, seen[i].as_str(), path) {
            assert(keys[i as int] == path_key(platform, path@));
            return true;
        }
        i = i + 1;
    }
    false
}

fn push_dereg(v: &mut Vec<DeregistrationStep>, s: DeregistrationStep)
    ensures
        dereg_steps_view(final(v)@) == dereg_steps_view(old(v)@).push(s@),
{
    let ghost before = v@;
    v.push(s);
    assert(dereg_steps_view(v@) =~= dereg_steps_view(before).push(s@));
}

/// The steps that undo a package's native GUI registrations (see
/// `dereg_from`). Paths are compared component by component.
pub fn plan_native_gui_deregistration(
    records: &Vec<GuiNativeRegistrationRecord>,
    platform: HostPlatform,
) -> (r: Vec<DeregistrationStep>)
    ensures
        dereg_steps_view(r@) == dereg_from(
            records_view(records@),
            platform == HostPlatform::Windows,
            Seq::empty(),
        ),
{
    let ghost rv = records_view(records@);
    let windows = platform == HostPlatform::Windows;
    let mut steps: Vec<DeregistrationStep> = Vec::new();
    let mut seen: Vec<String> = Vec::new();
    let n = records.len();
    let mut i: usize = 0;
    assert(rv.skip(0) =~= rv);
    assert(dereg_steps_view(steps@) =~= Seq::<DeregView>::empty());
    assert(seen_keys(windows, strs_view(seen@)) =~= Seq::<PathKey>::empty());
    while i < n
        invariant
            n == records@.len(),
            rv == records_view(records@),
            windows == (platform == HostPlatform::Windows),
            i <= n,
            dereg_from(rv, windows, Seq::empty()) == dereg_steps_view(steps@) + dereg_from(
                rv.skip(i as int),
                windows,
                seen_keys(windows, strs_view(seen@)),
            ),
        decreases n - i,
    {
        let rec = &records[i];
        let ghost rest = rv.skip(i as int);
        assert(rest[0] == rec@);
        assert(rest.drop_first() =~= rv.skip(i + 1));
        let ghost before = dereg_steps_view(steps@);
        match file_removal(rec.kind.as_str(), rec.path.as_str()) {
            Some(x) => {
                if !seen_contains(&seen, rec.path.as_str(), windows) {
                    push_dereg(&mut steps, DeregistrationStep::Remove(x));
                    let ghost sb = seen@;
                    seen.push(rec.path.clone());
                    assert(strs_view(seen@) =~= strs_view(sb).push(rec.path@));
                    assert(seen_keys(windows, strs_view(seen@)) =~= seen_keys(windows, strs_view(sb)).push(
                        path_key(key_host(windows), rec.path@),
                    ));
                    assert(before.push(DeregView::Remove(x@)) + dereg_from(
                        rv.skip(i + 1),
                        windows,
                        seen_keys(windows, strs_view(seen@)),
                    ) =~= before + (seq![DeregView::Remove(x@)] + dereg_from(
                        rv.skip(i + 1),
                        windows,
                        seen_keys(windows, strs_view(seen@)),
                    )));
                }
            },
            None => {
                if str_eq(rec.kind.as_str(), "registry-key") {
                    if windows {
                        push_dereg(
                            &mut steps,
                            DeregistrationStep::DeleteRegistryKey { path: rec.path.clone() },
                        );
                    } else {
                        let mut v: Vec<char> = Vec::new();
                        extend_str(&mut v, "native GUI deregistration warning: ");
                        extend_str(&mut v, "skipped Windows registry cleanup '");
                        extend_str(&mut v, rec.path.as_str());
                        extend_str(&mut v, "' on non-Windows host");
                        push_dereg(&mut steps, DeregistrationStep::Warn(string_of_vec(&v)));
                    }
                } else {
                    let mut v: Vec<char> = Vec::new();
                    extend_str(&mut v, "native GUI deregistration warning: ");
                    extend_str(&mut v, "unsupported registration kind '");
                    extend_str(&mut v, rec.kind.as_str());
                    extend_str(&mut v, "' for key '");
                    extend_str(&mut v, rec.key.as_str());
                    extend_str(&mut v, "'");
                    push_dereg(&mut steps, DeregistrationStep::Warn(string_of_vec(&v)));
                }
                let ghost last = dereg_steps_view(steps@).last();
                assert(dereg_steps_view(steps@) == before.push(last));
                assert(before.push(last) + dereg_from(rv.skip(i + 1), windows, seen_keys(windows, strs_view(seen@)))
                    =~= before + (seq![last] + dereg_from(rv.skip(i + 1), windows, seen_keys(windows, strs_view(seen@)))));
            },
        }
        i = i + 1;
    }
    assert(rv.skip(n as int) =~= Seq::<TripleView>::empty());
    assert(dereg_steps_view(steps@) + Seq::<DeregView>::empty() =~= dereg_steps_view(steps@));
    steps
}

pub open spec fn removal_path(x: RemovalView) -> Seq<char> {
    match x {
        RemovalView::Path { path } => path,
        RemovalView::ApplicationsSymlink { path } => path,
        RemovalView::Tree { path } => path,
        RemovalView::RegistryKey { path } => path,
    }
}

/// The warnings a deregistration ends with, given what each step gave
/// (`None` for success, else the failure's text): warning steps warn, and
/// so does every failed removal or registry deletion.
pub open spec fn dereg_warnings(steps: Seq<DeregView>, outcomes: Seq<Option<Seq<char>>>) -> Seq<
    Seq<char>,
>
    decreases steps.len(),
{
    if steps.len() == 0 || outcomes.len() < steps.len() {
        Seq::empty()
    } else {
        let rest = dereg_warnings(steps.drop_last(), outcomes.take(steps.len() - 1));
        match steps.last() {
            DeregView::Warn(w) => rest.push(w),
            DeregView::Remove(x) => match outcomes[steps.len() - 1] {
                Some(err) => rest.push(
                    dereg_prefix() + "failed to remove '"@ + removal_path(x) + "': "@ + err,
                ),
                None => rest,
            },
            DeregView::DeleteRegistryKey { .. } => match outcomes[steps.len() - 1] {
                Some(err) => rest.push(dereg_prefix() + err),
                None => rest,
            },
        }
    }
}

pub open spec fn outcomes_view(v: Seq<Option<String>>) -> Seq<Option<Seq<char>>> {
    crate::native_gui::outcomes_view(v)
}

fn removal_path_exec(x: &NativeRemoval) -> (r: &String)
    ensures
        r@ == removal_path(x@),
{
    match x {
        NativeRemoval::Path { path } => path,
        NativeRemoval::ApplicationsSymlink { path } => path,
        NativeRemoval::Tree { path } => path,
        NativeRemoval::RegistryKey { path } => path,
    }
}

/// The warnings of a deregistration (see `dereg_warnings`); `outcomes[k]`
/// is what step `k` gave, one per step.
pub fn deregistration_warnings(steps: &Vec<DeregistrationStep>, outcomes: &Vec<Option<String>>) -> (r: Vec<String>)
    requires
        outcomes@.len() == steps@.len(),
    ensures
        strs_view(r@) == dereg_warnings(dereg_steps_view(steps@), outcomes_view(outcomes@)),
{
    let ghost sv = dereg_steps_view(steps@);
    let ghost ov = outcomes_view(outcomes@);
    let n = steps.len();
    let mut ws: Vec<String> = Vec::new();
    let mut i: usize = 0;
    assert(strs_view(ws@) =~= Seq::<Seq<char>>::empty());
    while i < n
        invariant
            n == steps@.len(),
            n == outcomes@.len(),
            sv == dereg_steps_view(steps@),
            ov == outcomes_view(outcomes@),
            i <= n,
            strs_view(ws@) == dereg_warnings(sv.take(i as int), ov.take(i as int)),
        decreases n - i,
    {
        let ghost before = ws@;
        assert(sv.take(i + 1).drop_last() =~= sv.take(i as int));
        assert(ov.take(i + 1).take(i as int) =~= ov.take(i as int));
        assert(sv.take(i + 1).last() == steps@[i as int]@);
        assert(ov.take(i + 1)[i as int] == ov[i as int]);
        match &steps[i] {
            DeregistrationStep::Warn(w) => {
                ws.push(w.clone());
                assert(strs_view(ws@) =~= strs_view(before).push(w@));
            },
            DeregistrationStep::Remove(x) => match &outcomes[i] {
                Some(err) => {
                    let mut v: Vec<char> = Vec::new();
                    extend_str(&mut v, "native GUI deregistration warning: ");
                    extend_str(&mut v, "failed to remove '");
                    extend_str(&mut v, removal_path_exec(x).as_str());
                    extend_str(&mut v, "': ");
                    extend_str(&mut v, err.as_str());
                    let s = string_of_vec(&v);
                    ws.push(s);
                    assert(strs_view(ws@) =~= strs_view(before).push(s@));
                },
                None => {},
            },
            DeregistrationStep::DeleteRegistryKey { .. } => match &outcomes[i] {
                Some(err) => {
                    let mut v: Vec<char> = Vec::new();
                    extend_str(&mut v, "native GUI deregistration warning: ");
                    extend_str(&mut v, err.as_str());
                    let s = string_of_vec(&v);
                    ws.push(s);
                    assert(strs_view(ws@) =~= strs_view(before).push(s@));
                },
                None => {},
            },
        }
        i = i + 1;
    }
    assert(sv.take(n as int) =~= sv);
    assert(ov.take(n as int) =~= ov);
    ws
}

/// What happens to a package's native GUI state after a deregistration:
/// cleared when it ended without warnings, else written back as it was so
/// that a later cleanup can retry.
#[derive(Clone, Copy, Debug, PartialEq, Eq, Structural)]
pub enum NativeStateFollowUp {
    Clear,
    Rewrite,
}

pub fn native_state_follow_up(warnings: &Vec<String>) -> (r: NativeStateFollowUp)
    ensures
        r == (if warnings@.len() == 0 {
            NativeStateFollowUp::Clear
        } else {
            NativeStateFollowUp::Rewrite
        }),
{
    if warnings.len() == 0 {
        NativeStateFollowUp::Clear
    } else {
        NativeStateFollowUp::Rewrite
    }
}


/// The record kinds a registration writes: each is undone by an uninstall
/// action that removes the recorded path, on the host it was written on (a
/// registry key only on Windows).
pub proof fn lemma_registered_kinds_are_removable(r: TripleView, platform: HostPlatform)
    requires
        r.kind == "desktop-entry"@ || r.kind == "start-menu-launcher"@ || r.kind
            == "applications-symlink"@ || r.kind == "applications-bundle-copy"@ || (r.kind
            == "registry-key"@ && platform == HostPlatform::Windows),
    ensures
        uninstall_removal_spec(r, platform) is Ok,
        removal_path(uninstall_removal_spec(r, platform)->Ok_0) == r.path,
        (r.kind == "registry-key"@) == (uninstall_removal_spec(r, platform)->Ok_0 is RegistryKey),
        (r.kind == "applications-bundle-copy"@) == (uninstall_removal_spec(r, platform)->Ok_0 is Tree),
        (r.kind == "applications-symlink"@) == (uninstall_removal_spec(
            r,
            platform,
        )->Ok_0 is ApplicationsSymlink),
{
    reveal_strlit("desktop-entry");
    reveal_strlit("start-menu-launcher");
    reveal_strlit("applications-symlink");
    reveal_strlit("applications-bundle-copy");
    reveal_strlit("registry-key");
    assert("registry-key"@ != "desktop-entry"@ && "registry-key"@ != "start-menu-launcher"@
        && "registry-key"@ != "applications-symlink"@ && "registry-key"@
        != "applications-bundle-copy"@) by {
        assert("registry-key"@[0] != "desktop-entry"@[0]);
        assert("registry-key"@[0] != "start-menu-launcher"@[0]);
        assert("registry-key"@[0] != "applications-symlink"@[0]);
        assert("registry-key"@[0] != "applications-bundle-copy"@[0]);
    }
    assert("applications-symlink"@ != "applications-bundle-copy"@) by {
        assert("applications-symlink"@[13] != "applications-bundle-copy"@[13]);
    }
    assert("desktop-entry"@[0] != "applications-symlink"@[0]);
    assert("start-menu-launcher"@[0] != "applications-symlink"@[0]);
}

/// An uninstall action and a deregistration undo a file record the same
/// way: a deregistration of the single record removes exactly what the
/// uninstall action for it removes, and the uninstall action removes a file
/// record exactly when a deregistration would.
pub proof fn lemma_uninstall_agrees_with_deregistration(r: TripleView, platform: HostPlatform)
    ensures
        ({
            let d = dereg_from(seq![r], platform == HostPlatform::Windows, Seq::empty());
            &&& (d.len() == 1 && d[0] is Remove) <==> (uninstall_removal_spec(r, platform) is Ok
                && !(uninstall_removal_spec(r, platform)->Ok_0 is RegistryKey))
            &&& d.len() == 1 && d[0] is Remove ==> uninstall_removal_spec(r, platform) == Ok::<
                RemovalView,
                UninstallErrorView,
            >(d[0]->Remove_0)
        }),
        platform == HostPlatform::Windows && r.kind == "registry-key"@ ==> dereg_from(
            seq![r],
            true,
            Seq::empty(),
        ) == seq![DeregView::DeleteRegistryKey { path: r.path }] && uninstall_removal_spec(
            r,
            platform,
        ) == Ok::<RemovalView, UninstallErrorView>(RemovalView::RegistryKey { path: r.path }),
{
    let d = dereg_from(seq![r], platform == HostPlatform::Windows, Seq::empty());
    assert(seq![r].drop_first() =~= Seq::<TripleView>::empty());
    reveal_with_fuel(dereg_from, 2);
    reveal_strlit("registry-key");
    reveal_strlit("desktop-entry");
    reveal_strlit("start-menu-launcher");
    reveal_strlit("applications-symlink");
    reveal_strlit("applications-bundle-copy");
    assert("registry-key"@[0] != "desktop-entry"@[0]);
    assert("registry-key"@[0] != "start-menu-launcher"@[0]);
    assert("registry-key"@[0] != "applications-symlink"@[0]);
    assert("registry-key"@[0] != "applications-bundle-copy"@[0]);
    match file_removal_spec(r.kind, r.path) {
        Some(y) => {
            assert(d =~= seq![DeregView::Remove(y)]);
        },
        None => {
            assert(d.len() == 1);
            assert(!(d[0] is Remove));
        },
    }
    if platform == HostPlatform::Windows && r.kind == "registry-key"@ {
        assert(d =~= seq![DeregView::DeleteRegistryKey { path: r.path }]);
    }
}

/// The paths the removal steps of a deregistration remove, in order.
pub open spec fn removal_paths(steps: Seq<DeregView>) -> Seq<Seq<char>>
    decreases steps.len(),
{
    if steps.len() == 0 {
        Seq::empty()
    } else {
        let head = match steps[0] {
            DeregView::Remove(x) => seq![removal_path(x)],
            _ => Seq::<Seq<char>>::empty(),
        };
        head + removal_paths(steps.drop_first())
    }
}

/// The keys (`path_key`) of the paths a deregistration's removal steps
/// remove, in order.
pub open spec fn removal_keys(steps: Seq<DeregView>, windows: bool) -> Seq<PathKey> {
    removal_paths(steps).map_values(|p: Seq<char>| path_key(key_host(windows), p))
}

proof fn lemma_dereg_paths(records: Seq<TripleView>, windows: bool, seen: Seq<PathKey>)
    ensures
        removal_keys(dereg_from(records, windows, seen), windows).no_duplicates(),
        forall|k: int|
            0 <= k < removal_keys(dereg_from(records, windows, seen), windows).len() ==> !seen.contains(
                #[trigger] removal_keys(dereg_from(records, windows, seen), windows)[k],
            ),
    decreases records.len(),
{
    if records.len() > 0 {
        let r = records[0];
        let rest = records.drop_first();
        let kr = path_key(key_host(windows), r.path);
        match file_removal_spec(r.kind, r.path) {
            Some(x) => {
                if seen.contains(kr) {
                    lemma_dereg_paths(rest, windows, seen);
                } else {
                    let seen2 = seen.push(kr);
                    lemma_dereg_paths(rest, windows, seen2);
                    let tail = dereg_from(rest, windows, seen2);
                    let steps = seq![DeregView::Remove(x)] + tail;
                    assert(steps.drop_first() =~= tail);
                    assert(removal_path(x) == r.path);
                    let tk = removal_keys(tail, windows);
                    assert(removal_paths(steps) =~= seq![r.path] + removal_paths(tail));
                    assert(removal_keys(steps, windows) =~= seq![kr] + tk);
                    assert forall|k: int| 0 <= k < tk.len() implies #[trigger] tk[k] != kr
                        && !seen.contains(tk[k]) by {
                        assert(!seen2.contains(tk[k]));
                        if tk[k] == kr {
                            assert(seen2[seen.len() as int] == kr);
                        }
                        if seen.contains(tk[k]) {
                            let j = choose|j: int| 0 <= j < seen.len() && seen[j] == tk[k];
                            assert(seen2[j] == tk[k]);
                        }
                    }
                    let all = seq![kr] + tk;
                    assert forall|i: int, j: int|
                        0 <= i < all.len() && 0 <= j < all.len() && i != j implies all[i] != all[j] by {
                        if i == 0 {
                            assert(all[j] == tk[j - 1]);
                        } else if j == 0 {
                            assert(all[i] == tk[i - 1]);
                        } else {
                            assert(all[i] == tk[i - 1] && all[j] == tk[j - 1]);
                        }
                    }
                    assert forall|k: int| 0 <= k < all.len() implies !seen.contains(#[trigger] all[k]) by {
                        if k > 0 {
                            assert(all[k] == tk[k - 1]);
                        }
                    }
                }
            },
            None => {
                lemma_dereg_paths(rest, windows, seen);
                let tail = dereg_from(rest, windows, seen);
                let steps = dereg_from(records, windows, seen);
                assert(steps.drop_first() =~= tail);
                assert(steps[0] is Warn || steps[0] is DeleteRegistryKey);
                assert(removal_paths(steps) =~= removal_paths(tail));
                assert(removal_keys(steps, windows) =~= removal_keys(tail, windows));
            },
        }
    }
}

/// A deregistration removes each recorded file path at most once, however
/// many records name it and however they spell it (`path_key`).
pub proof fn lemma_deregistration_removes_each_path_once(records: Seq<TripleView>, windows: bool)
    ensures
        removal_keys(dereg_from(records, windows, Seq::empty()), windows).no_duplicates(),
        removal_paths(dereg_from(records, windows, Seq::empty())).no_duplicates(),
{
    lemma_dereg_paths(records, windows, Seq::empty());
    let ps = removal_paths(dereg_from(records, windows, Seq::empty()));
    let ks = removal_keys(dereg_from(records, windows, Seq::empty()), windows);
    assert forall|i: int, j: int| 0 <= i < ps.len() && 0 <= j < ps.len() && i != j implies ps[i]
        != ps[j] by {
        assert(ks[i] == path_key(key_host(windows), ps[i]));
        assert(ks[j] == path_key(key_host(windows), ps[j]));
    }
}

} // verus!
