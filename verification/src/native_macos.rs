//! Registering a GUI app on macOS: the app (or the `.app` bundle it lies
//! in) is linked, or for a bundle copied, into `/Applications` or else the
//! user's `Applications`, never over a bundle the prefix does not manage;
//! then LaunchServices is refreshed.
use vstd::prelude::*;

use crate::exposure::assets_view;
use crate::gui_app::is_app_bundle_path;
use crate::native_gui::{records_for_assets, records_view, strs_view, warn_prefix};
use crate::paths::{join_path, path_join};
use crate::text::{chars_of, extend_str, has_prefix, str_eq, string_of_vec};
use crate::types::{opt_view, strings_view, GuiExposureAsset, GuiNativeRegistrationRecord, TripleView};

verus! {

/// One operation a macOS registration asked of the host, with the host's
/// answer.
pub enum MacosHostOp {
    CreateDirAll { path: Seq<char>, result: Result<(), Seq<char>> },
    PathExists { path: Seq<char>, result: bool },
    IsDir { path: Seq<char>, result: bool },
    EntryIsDir { path: Seq<char>, result: Result<bool, Seq<char>> },
    RemoveDir { path: Seq<char>, result: Result<(), Seq<char>> },
    RemoveDirAll { path: Seq<char>, result: Result<(), Seq<char>> },
    RemoveFile { path: Seq<char>, result: Result<(), Seq<char>> },
    CreateSymlink { source: Seq<char>, link: Seq<char>, result: Result<(), Seq<char>> },
    CopyDirRecursive { source: Seq<char>, destination: Seq<char>, result: Result<(), Seq<char>> },
    RunCommand {
        program: Seq<char>,
        args: Seq<Seq<char>>,
        context: Seq<char>,
        result: Result<(), Seq<char>>,
    },
}

/// A host's answer that carries an error text, as a view.
pub open spec fn done_view(r: Result<(), String>) -> Result<(), Seq<char>> {
    match r {
        Ok(_) => Ok(()),
        Err(e) => Err(e@),
    }
}

pub open spec fn answer_view(r: Result<bool, String>) -> Result<bool, Seq<char>> {
    match r {
        Ok(b) => Ok(b),
        Err(e) => Err(e@),
    }
}

/// The file operations a macOS registration performs. Failures come back
/// as their text. `spec_ops` records every operation asked, with its
/// answer, in order.
pub trait MacosRegistrationHost {
    /// The operations asked so far.
    spec fn spec_ops(&self) -> Seq<MacosHostOp>;

    /// `fs::create_dir_all`.
    fn create_dir_all(&mut self, path: &str) -> (r: Result<(), String>)
        ensures
            final(self).spec_ops() == old(self).spec_ops().push(
                MacosHostOp::CreateDirAll { path: path@, result: done_view(r) },
            ),
    ;

    /// `Path::exists`: follows links.
    fn path_exists(&mut self, path: &str) -> (r: bool)
        ensures
            final(self).spec_ops() == old(self).spec_ops().push(
                MacosHostOp::PathExists { path: path@, result: r },
            ),
    ;

    /// `Path::is_dir`: follows links.
    fn is_dir(&mut self, path: &str) -> (r: bool)
        ensures
            final(self).spec_ops() == old(self).spec_ops().push(
                MacosHostOp::IsDir { path: path@, result: r },
            ),
    ;

    /// Whether the entry itself (not followed) is a directory.
    fn entry_is_dir(&mut self, path: &str) -> (r: Result<bool, String>)
        ensures
            final(self).spec_ops() == old(self).spec_ops().push(
                MacosHostOp::EntryIsDir { path: path@, result: answer_view(r) },
            ),
    ;

    fn remove_dir(&mut self, path: &str) -> (r: Result<(), String>)
        ensures
            final(self).spec_ops() == old(self).spec_ops().push(
                MacosHostOp::RemoveDir { path: path@, result: done_view(r) },
            ),
    ;

    fn remove_dir_all(&mut self, path: &str) -> (r: Result<(), String>)
        ensures
            final(self).spec_ops() == old(self).spec_ops().push(
                MacosHostOp::RemoveDirAll { path: path@, result: done_view(r) },
            ),
    ;

    fn remove_file(&mut self, path: &str) -> (r: Result<(), String>)
        ensures
            final(self).spec_ops() == old(self).spec_ops().push(
                MacosHostOp::RemoveFile { path: path@, result: done_view(r) },
            ),
    ;

    /// Makes `link` a symlink to `source`.
    fn create_symlink(&mut self, source: &str, link: &str) -> (r: Result<(), String>)
        ensures
            final(self).spec_ops() == old(self).spec_ops().push(
                MacosHostOp::CreateSymlink { source: source@, link: link@, result: done_view(r) },
            ),
    ;

    fn copy_dir_recursive(&mut self, source: &str, destination: &str) -> (r: Result<(), String>)
        ensures
            final(self).spec_ops() == old(self).spec_ops().push(
                MacosHostOp::CopyDirRecursive {
                    source: source@,
                    destination: destination@,
                    result: done_view(r),
                },
            ),
    ;

    fn run_command(&mut self, program: &str, args: &Vec<String>, context: &str) -> (r: Result<
        (),
        String,
    >)
        ensures
            final(self).spec_ops() == old(self).spec_ops().push(
                MacosHostOp::RunCommand {
                    program: program@,
                    args: crate::types::strings_view(args@),
                    context: context@,
                    result: done_view(r),
                },
            ),
    ;
}

/// The file operations of a macOS host, as the host answers them; it keeps
/// no record.
pub trait MacosHostOperations {
    fn create_dir_all(&mut self, path: &str) -> Result<(), String>;
    fn path_exists(&mut self, path: &str) -> bool;
    fn is_dir(&mut self, path: &str) -> bool;
    fn entry_is_dir(&mut self, path: &str) -> Result<bool, String>;
    fn remove_dir(&mut self, path: &str) -> Result<(), String>;
    fn remove_dir_all(&mut self, path: &str) -> Result<(), String>;
    fn remove_file(&mut self, path: &str) -> Result<(), String>;
    fn create_symlink(&mut self, source: &str, link: &str) -> Result<(), String>;
    fn copy_dir_recursive(&mut self, source: &str, destination: &str) -> Result<(), String>;
    fn run_command(&mut self, program: &str, args: &Vec<String>, context: &str) -> Result<(), String>;
}

/// A registration host that asks each operation of `inner` and records it,
/// with what `inner` answered.
pub struct RecordingMacosHost<H> {
    pub inner: H,
    pub ops: Ghost<Seq<MacosHostOp>>,
}

impl<H> RecordingMacosHost<H> {
    /// A host over `inner` that has asked nothing yet.
    pub fn new(inner: H) -> (r: Self)
        ensures
            r.inner == inner,
            r.ops@ == Seq::<MacosHostOp>::empty(),
    {
        RecordingMacosHost { inner, ops: Ghost(Seq::empty()) }
    }
}

impl<H: MacosHostOperations> MacosRegistrationHost for RecordingMacosHost<H> {
    open spec fn spec_ops(&self) -> Seq<MacosHostOp> {
        self.ops@
    }

    fn create_dir_all(&mut self, path: &str) -> (r: Result<(), String>) {
        let r = self.inner.create_dir_all(path);
        self.ops = Ghost(self.ops@.push(MacosHostOp::CreateDirAll { path: path@, result: done_view(r) }));
        r
    }

    fn path_exists(&mut self, path: &str) -> (r: bool) {
        let r = self.inner.path_exists(path);
        self.ops = Ghost(self.ops@.push(MacosHostOp::PathExists { path: path@, result: r }));
        r
    }

    fn is_dir(&mut self, path: &str) -> (r: bool) {
        let r = self.inner.is_dir(path);
        self.ops = Ghost(self.ops@.push(MacosHostOp::IsDir { path: path@, result: r }));
        r
    }

    fn entry_is_dir(&mut self, path: &str) -> (r: Result<bool, String>) {
        let r = self.inner.entry_is_dir(path);
        self.ops = Ghost(self.ops@.push(MacosHostOp::EntryIsDir { path: path@, result: answer_view(r) }));
        r
    }

    fn remove_dir(&mut self, path: &str) -> (r: Result<(), String>) {
        let r = self.inner.remove_dir(path);
        self.ops = Ghost(self.ops@.push(MacosHostOp::RemoveDir { path: path@, result: done_view(r) }));
        r
    }

    fn remove_dir_all(&mut self, path: &str) -> (r: Result<(), String>) {
        let r = self.inner.remove_dir_all(path);
        self.ops = Ghost(self.ops@.push(MacosHostOp::RemoveDirAll { path: path@, result: done_view(r) }));
        r
    }

    fn remove_file(&mut self, path: &str) -> (r: Result<(), String>) {
        let r = self.inner.remove_file(path);
        self.ops = Ghost(self.ops@.push(MacosHostOp::RemoveFile { path: path@, result: done_view(r) }));
        r
    }

    fn create_symlink(&mut self, source: &str, link: &str) -> (r: Result<(), String>) {
        let r = self.inner.create_symlink(source, link);
        self.ops = Ghost(
            self.ops@.push(
                MacosHostOp::CreateSymlink { source: source@, link: link@, result: done_view(r) },
            ),
        );
        r
    }

    fn copy_dir_recursive(&mut self, source: &str, destination: &str) -> (r: Result<(), String>) {
        let r = self.inner.copy_dir_recursive(source, destination);
        self.ops = Ghost(
            self.ops@.push(
                MacosHostOp::CopyDirRecursive {
                    source: source@,
                    destination: destination@,
                    result: done_view(r),
                },
            ),
        );
        r
    }

    fn run_command(&mut self, program: &str, args: &Vec<String>, context: &str) -> (r: Result<
        (),
        String,
    >) {
        let r = self.inner.run_command(program, args, context);
        self.ops = Ghost(
            self.ops@.push(
                MacosHostOp::RunCommand {
                    program: program@,
                    args: strings_view(args@),
                    context: context@,
                    result: done_view(r),
                },
            ),
        );
        r
    }
}

/// `ops` begins with `earlier`.
pub open spec fn extends(ops: Seq<MacosHostOp>, earlier: Seq<MacosHostOp>) -> bool {
    earlier.len() <= ops.len() && forall|i: int| 0 <= i < earlier.len() ==> #[trigger] ops[i] == earlier[i]
}

/// Where a registration may go: the applications directory and the entry
/// in it.
#[derive(Clone, Debug, PartialEq, Eq)]
pub struct MacosDestination {
    pub applications_dir: String,
    pub path: String,
}

/// `lsregister`, which refreshes the LaunchServices registry.
pub open spec fn lsregister_path() -> Seq<char> {
    "/System/Library/Frameworks/CoreServices.framework/Frameworks/LaunchServices.framework/Support/lsregister"@
}

pub open spec fn all_warnings(ws: Seq<Seq<char>>) -> bool {
    forall|k: int| 0 <= k < ws.len() ==> has_prefix(#[trigger] ws[k], warn_prefix())
}

/// Whether an earlier registration of the package made `destination`: a
/// record of an `applications-` kind with that path.
pub open spec fn previous_include_spec(previous: Seq<TripleView>, destination: Seq<char>) -> bool {
    exists|k: int|
        0 <= k < previous.len() && has_prefix(#[trigger] previous[k].kind, "applications-"@)
            && previous[k].path == destination
}

/// Whether an earlier registration made `destination` (see
/// `previous_include_spec`).
pub fn macos_previous_records_include_path(
    previous: &Vec<GuiNativeRegistrationRecord>,
    destination: &str,
) -> (r: bool)
    ensures
        r == previous_include_spec(records_view(previous@), destination@),
{
    let ghost pv = records_view(previous@);
    let n = previous.len();
    let mut i: usize = 0;
    while i < n
        invariant
            n == previous@.len(),
            pv == records_view(previous@),
            i <= n,
            forall|k: int|
                0 <= k < i ==> !(has_prefix(#[trigger] pv[k].kind, "applications-"@) && pv[k].path
                    == destination@),
        decreases n - i,
    {
        let rec = &previous[i];
        assert(pv[i as int] == rec@);
        if crate::text::starts_with_str(chars_of(rec.kind.as_str()).as_slice(), "applications-")
            && str_eq(rec.path.as_str(), destination) {
            assert(has_prefix(pv[i as int].kind, "applications-"@) && pv[i as int].path == destination@);
            return true;
        }
        i = i + 1;
    }
    false
}

fn warning(text: &Vec<char>) -> (r: String)
    ensures
        r@ == warn_prefix() + text@,
        has_prefix(r@, warn_prefix()),
{
    let mut v: Vec<char> = Vec::new();
    extend_str(&mut v, "native GUI registration warning: ");
    proof {
        reveal_strlit("native GUI registration warning: ");
    }
    let ghost p = v@;
    crate::text::extend_chars(&mut v, text.as_slice());
    assert((p + text@).take(p.len() as int) =~= p);
    string_of_vec(&v)
}

fn text2(a: &str, b: &str) -> (r: Vec<char>)
    ensures
        r@ == a@ + b@,
{
    let mut v: Vec<char> = Vec::new();
    extend_str(&mut v, a);
    extend_str(&mut v, b);
    v
}

fn text4(a: &str, b: &str, c: &str, d: &str) -> (r: Vec<char>)
    ensures
        r@ == a@ + b@ + c@ + d@,
{
    let mut v: Vec<char> = Vec::new();
    extend_str(&mut v, a);
    extend_str(&mut v, b);
    extend_str(&mut v, c);
    extend_str(&mut v, d);
    v
}

fn text6(a: &str, b: &str, c: &str, d: &str, e: &str, f: &str) -> (r: Vec<char>)
    ensures
        r@ == a@ + b@ + c@ + d@ + e@ + f@,
{
    let mut v: Vec<char> = Vec::new();
    extend_str(&mut v, a);
    extend_str(&mut v, b);
    extend_str(&mut v, c);
    extend_str(&mut v, d);
    extend_str(&mut v, e);
    extend_str(&mut v, f);
    v
}

/// The warning for an applications directory that could not be made.
pub open spec fn dir_prepare_warning(dir: Seq<char>, e: Seq<char>) -> Seq<char> {
    warn_prefix() + ("failed to prepare macOS applications dir "@ + dir + ": "@ + e)
}

/// The warning for an entry that no earlier registration made.
pub open spec fn unmanaged_warning(path: Seq<char>) -> Seq<char> {
    warn_prefix() + ("refusing to overwrite unmanaged macOS app bundle "@ + path)
}

pub open spec fn link_replace_warning(link: Seq<char>, e: Seq<char>) -> Seq<char> {
    warn_prefix() + ("failed to replace existing macOS application link "@ + link + ": "@ + e)
}

pub open spec fn link_create_warning(link: Seq<char>, source: Seq<char>, e: Seq<char>) -> Seq<char> {
    warn_prefix() + ("failed to create macOS application symlink "@ + link + " -> "@ + source + ": "@
        + e)
}

pub open spec fn bundle_source_warning(source: Seq<char>) -> Seq<char> {
    warn_prefix() + ("macOS app bundle source is not a directory "@ + source)
}

pub open spec fn bundle_replace_warning(dest: Seq<char>, e: Seq<char>) -> Seq<char> {
    warn_prefix() + ("failed to replace existing macOS application bundle "@ + dest + ": "@ + e)
}

pub open spec fn bundle_copy_warning(source: Seq<char>, dest: Seq<char>, e: Seq<char>) -> Seq<char> {
    warn_prefix() + ("failed to copy macOS application bundle "@ + source + " -> "@ + dest + ": "@ + e)
}

/// What preparing `path` in `dir` can warn: the directory could not be
/// made (with the host's error text), or the entry is one no earlier
/// registration made.
pub open spec fn prepare_warning(
    dir: Seq<char>,
    path: Seq<char>,
    previous: Seq<TripleView>,
    w: Seq<char>,
) -> bool {
    ||| exists|e: Seq<char>| w == #[trigger] dir_prepare_warning(dir, e)
    ||| w == unmanaged_warning(path) && !previous_include_spec(previous, path)
}

/// What linking `link` to `source` can warn.
pub open spec fn symlink_warning(source: Seq<char>, link: Seq<char>, w: Seq<char>) -> bool {
    ||| exists|e: Seq<char>| w == #[trigger] link_replace_warning(link, e)
    ||| exists|e: Seq<char>| w == #[trigger] link_create_warning(link, source, e)
}

/// What copying the bundle `source` to `dest` can warn.
pub open spec fn bundle_warning(source: Seq<char>, dest: Seq<char>, w: Seq<char>) -> bool {
    ||| w == bundle_source_warning(source)
    ||| exists|e: Seq<char>| w == #[trigger] bundle_replace_warning(dest, e)
    ||| exists|e: Seq<char>| w == #[trigger] bundle_copy_warning(source, dest, e)
}

/// What writing a registration at `dest` can warn.
pub open spec fn write_warning(bundle_copy: bool, source: Seq<char>, dest: Seq<char>, w: Seq<char>) -> bool {
    if bundle_copy {
        bundle_warning(source, dest, w)
    } else {
        symlink_warning(source, dest, w)
    }
}

// ---------------------------------------------------------------------------
// the operations each step asks of the host
//
// Each `*_run` reads a step's operations off `ops` from index `at`: the
// number of operations the step asks and what it answers, given the host's
// answers; `None` where `ops` do not go on as the step asks.

/// Preparing `dest`: `create_dir_all` of its applications directory, then,
/// where that went through, whether `dest` exists. An existing entry that
/// no earlier registration made is refused.
pub open spec fn prepare_run(
    dest: MacosDestination,
    previous: Seq<TripleView>,
    ops: Seq<MacosHostOp>,
    at: int,
) -> Option<(int, Result<(), Seq<char>>)> {
    if !(0 <= at < ops.len()) {
        None
    } else {
        match ops[at] {
            MacosHostOp::CreateDirAll { path, result } => if path != dest.applications_dir@ {
                None
            } else {
                match result {
                    Err(e) => Some((1int, Err(dir_prepare_warning(dest.applications_dir@, e)))),
                    Ok(_) => if !(at + 1 < ops.len()) {
                        None
                    } else {
                        match ops[at + 1] {
                            MacosHostOp::PathExists { path: p, result: exists } => if p != dest.path@ {
                                None
                            } else if exists && !previous_include_spec(previous, dest.path@) {
                                Some((2int, Err(unmanaged_warning(dest.path@))))
                            } else {
                                Some((2int, Ok(())))
                            },
                            _ => None,
                        }
                    },
                }
            },
            _ => None,
        }
    }
}

/// Clearing `path` for a new entry: whether it exists and, where it does,
/// whether the entry is a directory, then removing it (a directory tree
/// where `tree`, else an empty directory) or the file. Answers the error of
/// the first step that failed.
pub open spec fn clear_run(path: Seq<char>, tree: bool, ops: Seq<MacosHostOp>, at: int) -> Option<
    (int, Result<(), Seq<char>>),
> {
    if !(0 <= at < ops.len()) {
        None
    } else {
        match ops[at] {
            MacosHostOp::PathExists { path: p, result: exists } => if p != path {
                None
            } else if !exists {
                Some((1int, Ok(())))
            } else if !(at + 1 < ops.len()) {
                None
            } else {
                match ops[at + 1] {
                    MacosHostOp::EntryIsDir { path: p2, result: kind } => if p2 != path {
                        None
                    } else {
                        match kind {
                            Err(e) => Some((2int, Err(e))),
                            Ok(is_dir) => if !(at + 2 < ops.len()) {
                                None
                            } else {
                                match ops[at + 2] {
                                    MacosHostOp::RemoveDir { path: p3, result } => if is_dir && !tree
                                        && p3 == path {
                                        Some((3int, result))
                                    } else {
                                        None
                                    },
                                    MacosHostOp::RemoveDirAll { path: p3, result } => if is_dir && tree
                                        && p3 == path {
                                        Some((3int, result))
                                    } else {
                                        None
                                    },
                                    MacosHostOp::RemoveFile { path: p3, result } => if !is_dir && p3
                                        == path {
                                        Some((3int, result))
                                    } else {
                                        None
                                    },
                                    _ => None,
                                }
                            },
                        }
                    },
                    _ => None,
                }
            },
            _ => None,
        }
    }
}

/// Linking `link` to `source`: clearing `link`, then, where that went
/// through, `create_symlink(source, link)`.
pub open spec fn symlink_run(source: Seq<char>, link: Seq<char>, ops: Seq<MacosHostOp>, at: int) -> Option<
    (int, Result<(), Seq<char>>),
> {
    match clear_run(link, false, ops, at) {
        None => None,
        Some((n, Err(e))) => Some((n, Err(link_replace_warning(link, e)))),
        Some((n, Ok(_))) => if !(at + n < ops.len()) {
            None
        } else {
            match ops[at + n] {
                MacosHostOp::CreateSymlink { source: s, link: l, result } => if s != source || l
                    != link {
                    None
                } else {
                    Some(
                        (
                            n + 1,
                            match result {
                                Ok(_) => Ok(()),
                                Err(e) => Err(link_create_warning(link, source, e)),
                            },
                        ),
                    )
                },
                _ => None,
            }
        },
    }
}

/// Copying the bundle `source` to `dest`: whether `source` is a directory,
/// then clearing `dest`, then `copy_dir_recursive(source, dest)`.
pub open spec fn bundle_run(source: Seq<char>, dest: Seq<char>, ops: Seq<MacosHostOp>, at: int) -> Option<
    (int, Result<(), Seq<char>>),
> {
    if !(0 <= at < ops.len()) {
        None
    } else {
        match ops[at] {
            MacosHostOp::IsDir { path, result: is_dir } => if path != source {
                None
            } else if !is_dir {
                Some((1int, Err(bundle_source_warning(source))))
            } else {
                match clear_run(dest, true, ops, at + 1) {
                    None => None,
                    Some((n, Err(e))) => Some((n + 1, Err(bundle_replace_warning(dest, e)))),
                    Some((n, Ok(_))) => if !(at + 1 + n < ops.len()) {
                        None
                    } else {
                        match ops[at + 1 + n] {
                            MacosHostOp::CopyDirRecursive { source: s, destination: d, result } => if s
                                != source || d != dest {
                                None
                            } else {
                                Some(
                                    (
                                        n + 2,
                                        match result {
                                            Ok(_) => Ok(()),
                                            Err(e) => Err(bundle_copy_warning(source, dest, e)),
                                        },
                                    ),
                                )
                            },
                            _ => None,
                        }
                    },
                }
            },
            _ => None,
        }
    }
}

/// Writing the registration at `dest`: a bundle copy or a link.
pub open spec fn write_run(
    bundle_copy: bool,
    source: Seq<char>,
    dest: Seq<char>,
    ops: Seq<MacosHostOp>,
    at: int,
) -> Option<(int, Result<(), Seq<char>>)> {
    if bundle_copy {
        bundle_run(source, dest, ops, at)
    } else {
        symlink_run(source, dest, ops, at)
    }
}

/// The operations the attempt `step` of placing asks.
pub open spec fn step_run(
    bundle_copy: bool,
    source: Seq<char>,
    system: MacosDestination,
    user: MacosDestination,
    previous: Seq<TripleView>,
    step: MacosPlacementStep,
    ops: Seq<MacosHostOp>,
    at: int,
) -> Option<(int, Result<(), Seq<char>>)> {
    match step {
        MacosPlacementStep::PrepareSystem => prepare_run(system, previous, ops, at),
        MacosPlacementStep::WriteSystem => write_run(bundle_copy, source, system.path@, ops, at),
        MacosPlacementStep::PrepareUser => prepare_run(user, previous, ops, at),
        MacosPlacementStep::WriteUser => write_run(bundle_copy, source, user.path@, ops, at),
        _ => Some((0int, Ok(()))),
    }
}

/// Placing a registration from `step` on, with `warnings` met so far, read
/// off the host's answers `ops` from `at`: each attempt asks its
/// operations (`step_run`), a failed one adds its warning, and
/// `placement_next_spec` picks the next attempt. Answers the index after
/// the last operation, where the registration went, and the warnings.
pub open spec fn placement_run(
    bundle_copy: bool,
    source: Seq<char>,
    system: MacosDestination,
    user: MacosDestination,
    previous: Seq<TripleView>,
    step: MacosPlacementStep,
    ops: Seq<MacosHostOp>,
    at: int,
    warnings: Seq<Seq<char>>,
) -> Option<(int, Option<Seq<char>>, Seq<Seq<char>>)>
    decreases placement_attempts_left(step),
{
    match step {
        MacosPlacementStep::PlacedSystem => Some((at, Some(system.path@), warnings)),
        MacosPlacementStep::PlacedUser => Some((at, Some(user.path@), warnings)),
        MacosPlacementStep::NotPlaced => Some((at, None, warnings)),
        _ => match step_run(bundle_copy, source, system, user, previous, step, ops, at) {
            None => None,
            Some((n, r)) => {
                let next = placement_next_spec(step, r is Ok, user.path@ == system.path@);
                proof {
                    lemma_placement_ends(step, r is Ok, user.path@ == system.path@);
                }
                placement_run(
                    bundle_copy,
                    source,
                    system,
                    user,
                    previous,
                    next,
                    ops,
                    at + n,
                    match r {
                        Ok(_) => warnings,
                        Err(w) => warnings.push(w),
                    },
                )
            },
        },
    }
}

/// An attempt read off `ops` reads the same off any `longer` that begins
/// with the operations it read.
proof fn lemma_step_run_extends(
    bundle_copy: bool,
    source: Seq<char>,
    system: MacosDestination,
    user: MacosDestination,
    previous: Seq<TripleView>,
    step: MacosPlacementStep,
    ops: Seq<MacosHostOp>,
    longer: Seq<MacosHostOp>,
    at: int,
)
    requires
        extends(longer, ops),
        step_run(bundle_copy, source, system, user, previous, step, ops, at) is Some,
    ensures
        step_run(bundle_copy, source, system, user, previous, step, longer, at) == step_run(
            bundle_copy,
            source,
            system,
            user,
            previous,
            step,
            ops,
            at,
        ),
{
}

/// Placing read off `ops` reads the same off any `longer` that begins
/// with `ops`.
proof fn lemma_placement_run_extends(
    bundle_copy: bool,
    source: Seq<char>,
    system: MacosDestination,
    user: MacosDestination,
    previous: Seq<TripleView>,
    step: MacosPlacementStep,
    ops: Seq<MacosHostOp>,
    longer: Seq<MacosHostOp>,
    at: int,
    warnings: Seq<Seq<char>>,
)
    requires
        extends(longer, ops),
        placement_run(bundle_copy, source, system, user, previous, step, ops, at, warnings) is Some,
    ensures
        placement_run(bundle_copy, source, system, user, previous, step, longer, at, warnings)
            == placement_run(bundle_copy, source, system, user, previous, step, ops, at, warnings),
    decreases placement_attempts_left(step),
{
    if !placement_finished(step) {
        lemma_step_run_extends(bundle_copy, source, system, user, previous, step, ops, longer, at);
        let (n, r) = step_run(bundle_copy, source, system, user, previous, step, ops, at)->0;
        lemma_placement_ends(step, r is Ok, user.path@ == system.path@);
        lemma_placement_run_extends(
            bundle_copy,
            source,
            system,
            user,
            previous,
            placement_next_spec(step, r is Ok, user.path@ == system.path@),
            ops,
            longer,
            at + n,
            match r {
                Ok(_) => warnings,
                Err(w) => warnings.push(w),
            },
        );
    }
}

/// Makes `destination` ready: its applications directory exists, and it is
/// not an entry that no earlier registration of the package made.
pub fn prepare_macos_registration_destination<H: MacosRegistrationHost>(
    host: &mut H,
    destination: &MacosDestination,
    previous: &Vec<GuiNativeRegistrationRecord>,
) -> (r: Result<(), String>)
    ensures
        extends(final(host).spec_ops(), old(host).spec_ops()),
        prepare_run(
            *destination,
            records_view(previous@),
            final(host).spec_ops(),
            old(host).spec_ops().len() as int,
        ) == Some((final(host).spec_ops().len() - old(host).spec_ops().len(), done_view(r))),
        match r {
            Ok(_) => true,
            Err(w) => has_prefix(w@, warn_prefix()) && prepare_warning(
                destination.applications_dir@,
                destination.path@,
                records_view(previous@),
                w@,
            ),
        },
{
    match host.create_dir_all(destination.applications_dir.as_str()) {
        Ok(_) => {},
        Err(err) => {
            let w = warning(
                &text4(
                    "failed to prepare macOS applications dir ",
                    destination.applications_dir.as_str(),
                    ": ",
                    err.as_str(),
                ),
            );
            assert(w@ == dir_prepare_warning(destination.applications_dir@, err@));
            return Err(w);
        },
    }
    if host.path_exists(destination.path.as_str()) && !macos_previous_records_include_path(
        previous,
        destination.path.as_str(),
    ) {
        return Err(
            warning(
                &text2(
                    "refusing to overwrite unmanaged macOS app bundle ",
                    destination.path.as_str(),
                ),
            ),
        );
    }
    Ok(())
}

/// Links `link` to `source`, replacing what was there.
pub fn write_macos_registration_symlink<H: MacosRegistrationHost>(
    host: &mut H,
    source: &str,
    link: &str,
) -> (r: Result<(), String>)
    ensures
        extends(final(host).spec_ops(), old(host).spec_ops()),
        symlink_run(source@, link@, final(host).spec_ops(), old(host).spec_ops().len() as int)
            == Some((final(host).spec_ops().len() - old(host).spec_ops().len(), done_view(r))),
        match r {
            Ok(_) => true,
            Err(w) => has_prefix(w@, warn_prefix()) && symlink_warning(source@, link@, w@),
        },
{
    if host.path_exists(link) {
        let removed = match host.entry_is_dir(link) {
            Ok(true) => host.remove_dir(link),
            Ok(false) => host.remove_file(link),
            Err(e) => Err(e),
        };
        match removed {
            Ok(_) => {},
            Err(err) => {
                let w = warning(
                    &text4(
                        "failed to replace existing macOS application link ",
                        link,
                        ": ",
                        err.as_str(),
                    ),
                );
                assert(w@ == link_replace_warning(link@, err@));
                return Err(w);
            },
        }
    }
    match host.create_symlink(source, link) {
        Ok(_) => Ok(()),
        Err(err) => {
            let w = warning(
                &text6(
                    "failed to create macOS application symlink ",
                    link,
                    " -> ",
                    source,
                    ": ",
                    err.as_str(),
                ),
            );
            assert(w@ == link_create_warning(link@, source@, err@));
            Err(w)
        },
    }
}

/// Copies the bundle `source` to `destination`, replacing what was there.
pub fn write_macos_registration_bundle_copy<H: MacosRegistrationHost>(
    host: &mut H,
    source: &str,
    destination: &str,
) -> (r: Result<(), String>)
    ensures
        extends(final(host).spec_ops(), old(host).spec_ops()),
        bundle_run(source@, destination@, final(host).spec_ops(), old(host).spec_ops().len() as int)
            == Some((final(host).spec_ops().len() - old(host).spec_ops().len(), done_view(r))),
        match r {
            Ok(_) => true,
            Err(w) => has_prefix(w@, warn_prefix()) && bundle_warning(source@, destination@, w@),
        },
{
    if !host.is_dir(source) {
        return Err(warning(&text2("macOS app bundle source is not a directory ", source)));
    }
    if host.path_exists(destination) {
        let removed = match host.entry_is_dir(destination) {
            Ok(true) => host.remove_dir_all(destination),
            Ok(false) => host.remove_file(destination),
            Err(e) => Err(e),
        };
        match removed {
            Ok(_) => {},
            Err(err) => {
                let w = warning(
                    &text4(
                        "failed to replace existing macOS application bundle ",
                        destination,
                        ": ",
                        err.as_str(),
                    ),
                );
                assert(w@ == bundle_replace_warning(destination@, err@));
                return Err(w);
            },
        }
    }
    match host.copy_dir_recursive(source, destination) {
        Ok(_) => Ok(()),
        Err(err) => {
            let w = warning(
                &text6(
                    "failed to copy macOS application bundle ",
                    source,
                    " -> ",
                    destination,
                    ": ",
                    err.as_str(),
                ),
            );
            assert(w@ == bundle_copy_warning(source@, destination@, err@));
            Err(w)
        },
    }
}

fn write_registration<H: MacosRegistrationHost>(
    host: &mut H,
    bundle_copy: bool,
    source: &str,
    destination: &str,
) -> (r: Result<(), String>)
    ensures
        extends(final(host).spec_ops(), old(host).spec_ops()),
        write_run(
            bundle_copy,
            source@,
            destination@,
            final(host).spec_ops(),
            old(host).spec_ops().len() as int,
        ) == Some((final(host).spec_ops().len() - old(host).spec_ops().len(), done_view(r))),
        match r {
            Ok(_) => true,
            Err(w) => has_prefix(w@, warn_prefix()) && write_warning(
                bundle_copy,
                source@,
                destination@,
                w@,
            ),
        },
{
    if bundle_copy {
        write_macos_registration_bundle_copy(host, source, destination)
    } else {
        write_macos_registration_symlink(host, source, destination)
    }
}

fn push_warning(ws: &mut Vec<String>, w: String)
    requires
        all_warnings(strs_view(old(ws)@)),
        has_prefix(w@, warn_prefix()),
    ensures
        strs_view(final(ws)@) == strs_view(old(ws)@).push(w@),
        all_warnings(strs_view(final(ws)@)),
        final(ws)@.len() == old(ws)@.len() + 1,
{
    let ghost before = ws@;
    ws.push(w);
    assert(strs_view(ws@) =~= strs_view(before).push(w@));
}

/// Where placing a macOS registration stands: the attempt to make next,
/// or how it ended.
#[derive(Clone, Copy, Debug, PartialEq, Eq)]
pub enum MacosPlacementStep {
    PrepareSystem,
    WriteSystem,
    PrepareUser,
    WriteUser,
    PlacedSystem,
    PlacedUser,
    NotPlaced,
}

/// Whether placing has ended.
pub open spec fn placement_finished(step: MacosPlacementStep) -> bool {
    match step {
        MacosPlacementStep::PlacedSystem | MacosPlacementStep::PlacedUser
        | MacosPlacementStep::NotPlaced => true,
        _ => false,
    }
}

/// The step after `step` succeeded or failed. The system location comes
/// first; when it cannot be prepared the user location is prepared instead;
/// when writing the system location fails, the user location is prepared
/// and written, unless it is the same place. Failing to prepare or write
/// the user location ends placing.
pub open spec fn placement_next_spec(
    step: MacosPlacementStep,
    succeeded: bool,
    same_destination: bool,
) -> MacosPlacementStep {
    match step {
        MacosPlacementStep::PrepareSystem => if succeeded {
            MacosPlacementStep::WriteSystem
        } else {
            MacosPlacementStep::PrepareUser
        },
        MacosPlacementStep::WriteSystem => if succeeded {
            MacosPlacementStep::PlacedSystem
        } else if same_destination {
            MacosPlacementStep::NotPlaced
        } else {
            MacosPlacementStep::PrepareUser
        },
        MacosPlacementStep::PrepareUser => if succeeded {
            MacosPlacementStep::WriteUser
        } else {
            MacosPlacementStep::NotPlaced
        },
        MacosPlacementStep::WriteUser => if succeeded {
            MacosPlacementStep::PlacedUser
        } else {
            MacosPlacementStep::NotPlaced
        },
        other => other,
    }
}

/// How many attempts at most remain from `step`.
pub open spec fn placement_attempts_left(step: MacosPlacementStep) -> nat {
    match step {
        MacosPlacementStep::PrepareSystem => 4,
        MacosPlacementStep::WriteSystem => 3,
        MacosPlacementStep::PrepareUser => 2,
        MacosPlacementStep::WriteUser => 1,
        _ => 0,
    }
}

/// Placing always ends: every attempt leaves fewer attempts to make, so at
/// most four are made.
pub proof fn lemma_placement_ends(step: MacosPlacementStep, succeeded: bool, same_destination: bool)
    requires
        !placement_finished(step),
    ensures
        placement_attempts_left(placement_next_spec(step, succeeded, same_destination))
            < placement_attempts_left(step),
{
}

/// The step after `step` succeeded or failed (see `placement_next_spec`).
pub fn macos_placement_next(
    step: MacosPlacementStep,
    succeeded: bool,
    same_destination: bool,
) -> (r: MacosPlacementStep)
    ensures
        r == placement_next_spec(step, succeeded, same_destination),
{
    match step {
        MacosPlacementStep::PrepareSystem => if succeeded {
            MacosPlacementStep::WriteSystem
        } else {
            MacosPlacementStep::PrepareUser
        },
        MacosPlacementStep::WriteSystem => if succeeded {
            MacosPlacementStep::PlacedSystem
        } else if same_destination {
            MacosPlacementStep::NotPlaced
        } else {
            MacosPlacementStep::PrepareUser
        },
        MacosPlacementStep::PrepareUser => if succeeded {
            MacosPlacementStep::WriteUser
        } else {
            MacosPlacementStep::NotPlaced
        },
        MacosPlacementStep::WriteUser => if succeeded {
            MacosPlacementStep::PlacedUser
        } else {
            MacosPlacementStep::NotPlaced
        },
        other => other,
    }
}

/// What placing a registration can warn: preparing or writing either
/// location.
pub open spec fn placement_warning(
    bundle_copy: bool,
    source: Seq<char>,
    system: MacosDestination,
    user: MacosDestination,
    previous: Seq<TripleView>,
    w: Seq<char>,
) -> bool {
    ||| prepare_warning(system.applications_dir@, system.path@, previous, w)
    ||| write_warning(bundle_copy, source, system.path@, w)
    ||| prepare_warning(user.applications_dir@, user.path@, previous, w)
    ||| write_warning(bundle_copy, source, user.path@, w)
}

/// Places the registration, making each attempt `macos_placement_next`
/// asks for. Answers where the registration went, if anywhere, and the
/// warnings met on the way.
pub fn register_macos_application<H: MacosRegistrationHost>(
    host: &mut H,
    bundle_copy: bool,
    source: &str,
    system: &MacosDestination,
    user: &MacosDestination,
    previous: &Vec<GuiNativeRegistrationRecord>,
) -> (r: (Option<String>, Vec<String>))
    ensures
        match r.0 {
            Some(d) => d@ == system.path@ || d@ == user.path@,
            None => true,
        },
        all_warnings(strs_view(r.1@)),
        forall|k: int|
            0 <= k < r.1@.len() ==> placement_warning(
                bundle_copy,
                source@,
                *system,
                *user,
                records_view(previous@),
                #[trigger] strs_view(r.1@)[k],
            ),
        r.1@.len() == 0 ==> (r.0 matches Some(d) && d@ == system.path@),
        r.0 is None ==> r.1@.len() > 0,
        extends(final(host).spec_ops(), old(host).spec_ops()),
        placement_run(
            bundle_copy,
            source@,
            *system,
            *user,
            records_view(previous@),
            MacosPlacementStep::PrepareSystem,
            final(host).spec_ops(),
            old(host).spec_ops().len() as int,
            Seq::empty(),
        ) == Some((final(host).spec_ops().len() as int, opt_view(r.0), strs_view(r.1@))),
{
    let mut warnings: Vec<String> = Vec::new();
    assert(strs_view(warnings@) =~= Seq::<Seq<char>>::empty());
    let same = str_eq(user.path.as_str(), system.path.as_str());
    let mut step = MacosPlacementStep::PrepareSystem;
    let ghost start = host.spec_ops();
    let ghost pv = records_view(previous@);
    loop
        invariant
            start == old(host).spec_ops(),
            pv == records_view(previous@),
            same == (user.path@ == system.path@),
            extends(host.spec_ops(), start),
            forall|longer: Seq<MacosHostOp>|
                extends(longer, host.spec_ops()) ==> #[trigger] placement_run(
                    bundle_copy,
                    source@,
                    *system,
                    *user,
                    pv,
                    MacosPlacementStep::PrepareSystem,
                    longer,
                    start.len() as int,
                    Seq::empty(),
                ) == placement_run(
                    bundle_copy,
                    source@,
                    *system,
                    *user,
                    pv,
                    step,
                    longer,
                    host.spec_ops().len() as int,
                    strs_view(warnings@),
                ),
            all_warnings(strs_view(warnings@)),
            forall|k: int|
                0 <= k < warnings@.len() ==> placement_warning(
                    bundle_copy,
                    source@,
                    *system,
                    *user,
                    records_view(previous@),
                    #[trigger] strs_view(warnings@)[k],
                ),
            (step == MacosPlacementStep::PrepareSystem || step == MacosPlacementStep::WriteSystem
                || step == MacosPlacementStep::PlacedSystem) <==> warnings@.len() == 0,
        decreases placement_attempts_left(step),
    {
        let ghost ops_at_step = host.spec_ops();
        let outcome = match step {
            MacosPlacementStep::PrepareSystem => prepare_macos_registration_destination(
                host,
                system,
                previous,
            ),
            MacosPlacementStep::WriteSystem => write_registration(
                host,
                bundle_copy,
                source,
                system.path.as_str(),
            ),
            MacosPlacementStep::PrepareUser => prepare_macos_registration_destination(
                host,
                user,
                previous,
            ),
            MacosPlacementStep::WriteUser => write_registration(
                host,
                bundle_copy,
                source,
                user.path.as_str(),
            ),
            MacosPlacementStep::PlacedSystem => {
                return (Some(system.path.clone()), warnings);
            },
            MacosPlacementStep::PlacedUser => {
                return (Some(user.path.clone()), warnings);
            },
            MacosPlacementStep::NotPlaced => {
                return (None, warnings);
            },
        };
        let ghost len_before = warnings@.len();
        let ghost w_before = strs_view(warnings@);
        let ghost ops_before = ops_at_step;
        let succeeded = match outcome {
            Ok(_) => true,
            Err(w) => {
                let ghost before = strs_view(warnings@);
                assert(placement_warning(
                    bundle_copy,
                    source@,
                    *system,
                    *user,
                    records_view(previous@),
                    w@,
                ));
                push_warning(&mut warnings, w);
                assert(strs_view(warnings@)[before.len() as int] == w@);
                assert(warnings@.len() == before.len() + 1);
                assert forall|k: int|
                    0 <= k < warnings@.len() implies placement_warning(
                    bundle_copy,
                    source@,
                    *system,
                    *user,
                    records_view(previous@),
                    #[trigger] strs_view(warnings@)[k],
                ) by {
                    if k < before.len() {
                        assert(strs_view(warnings@)[k] == before[k]);
                    }
                }
                false
            },
        };
        proof {
            lemma_placement_ends(step, succeeded, same);
            assert(succeeded ==> warnings@.len() == len_before);
            assert(!succeeded ==> warnings@.len() == len_before + 1);
            let now = host.spec_ops();
            let n = now.len() - ops_before.len();
            assert(step_run(bundle_copy, source@, *system, *user, pv, step, now, ops_before.len() as int)
                == Some((n, done_view(outcome))));
            assert(strs_view(warnings@) == match done_view(outcome) {
                Ok(_) => w_before,
                Err(w) => w_before.push(w),
            });
            assert forall|longer: Seq<MacosHostOp>|
                extends(longer, now) implies #[trigger] placement_run(
                    bundle_copy,
                    source@,
                    *system,
                    *user,
                    pv,
                    MacosPlacementStep::PrepareSystem,
                    longer,
                    start.len() as int,
                    Seq::empty(),
                ) == placement_run(
                    bundle_copy,
                    source@,
                    *system,
                    *user,
                    pv,
                    placement_next_spec(step, succeeded, same),
                    longer,
                    now.len() as int,
                    strs_view(warnings@),
                ) by {
                assert(extends(longer, ops_before));
                lemma_step_run_extends(bundle_copy, source@, *system, *user, pv, step, now, longer, ops_before.len() as int);
            }
        }
        step = macos_placement_next(step, succeeded, same);
    }
}

/// The record kind of a macOS registration: a copied bundle or a link.
pub open spec fn macos_kind_spec(source: Seq<char>) -> Seq<char> {
    if is_app_bundle_path(source) {
        "applications-bundle-copy"@
    } else {
        "applications-symlink"@
    }
}

/// The context `lsregister` runs under.
pub open spec fn lsregister_context() -> Seq<char> {
    "failed to refresh macOS LaunchServices registry"@
}

/// Registering the app at `source`, read off the host's answers `ops` from
/// `at`: placing it (`placement_run`; a bundle is copied, anything else
/// linked), then, where it was placed at `d`, `lsregister -f d` as the
/// last operation, whose failure adds a warning. Answers the records, one
/// per asset and all at `d`, and the warnings.
pub open spec fn registration_run(
    assets: Seq<(Seq<char>, Seq<char>)>,
    source: Seq<char>,
    system: MacosDestination,
    user: MacosDestination,
    previous: Seq<TripleView>,
    ops: Seq<MacosHostOp>,
    at: int,
) -> Option<(Seq<TripleView>, Seq<Seq<char>>)> {
    match placement_run(
        is_app_bundle_path(source),
        source,
        system,
        user,
        previous,
        MacosPlacementStep::PrepareSystem,
        ops,
        at,
        Seq::empty(),
    ) {
        None => None,
        Some((end, None, ws)) => if end == ops.len() {
            Some((Seq::empty(), ws))
        } else {
            None
        },
        Some((end, Some(d), ws)) => if end + 1 != ops.len() || end < 0 {
            None
        } else {
            match ops[end] {
                MacosHostOp::RunCommand { program, args, context, result } => if program
                    == lsregister_path() && args == seq!["-f"@, d] && context == lsregister_context() {
                    Some(
                        (
                            records_for_assets(assets, macos_kind_spec(source), d),
                            match result {
                                Ok(_) => ws,
                                Err(e) => ws.push(warn_prefix() + e),
                            },
                        ),
                    )
                } else {
                    None
                },
                _ => None,
            }
        },
    }
}

/// Registers the app at `source` on macOS (see `register_macos_application`)
/// and records it for every asset; then refreshes LaunchServices. With no
/// place found, nothing is recorded.
pub fn register_macos_native_gui_registration<H: MacosRegistrationHost>(
    host: &mut H,
    assets: &Vec<GuiExposureAsset>,
    source: &str,
    system: &MacosDestination,
    user: &MacosDestination,
    previous: &Vec<GuiNativeRegistrationRecord>,
) -> (r: (Vec<GuiNativeRegistrationRecord>, Vec<String>))
    ensures
        records_view(r.0@).len() == 0 || exists|d: Seq<char>|
            (d == system.path@ || d == user.path@) && records_view(r.0@) == records_for_assets(
                assets_view(assets@),
                macos_kind_spec(source@),
                d,
            ),
        all_warnings(strs_view(r.1@)),
        r.1@.len() == 0 ==> records_view(r.0@) == records_for_assets(
            assets_view(assets@),
            macos_kind_spec(source@),
            system.path@,
        ),
        assets@.len() > 0 && r.0@.len() == 0 ==> r.1@.len() > 0,
        extends(final(host).spec_ops(), old(host).spec_ops()),
        registration_run(
            assets_view(assets@),
            source@,
            *system,
            *user,
            records_view(previous@),
            final(host).spec_ops(),
            old(host).spec_ops().len() as int,
        ) == Some((records_view(r.0@), strs_view(r.1@))),
{
    let ghost start = host.spec_ops();
    let bundle_copy = crate::gui_app::is_app_bundle_path_exec(source);
    let (selected, mut warnings) = register_macos_application(
        host,
        bundle_copy,
        source,
        system,
        user,
        previous,
    );
    let ghost placed = host.spec_ops();
    let link = match selected {
        None => {
            let r: Vec<GuiNativeRegistrationRecord> = Vec::new();
            assert(records_view(r@) =~= Seq::<TripleView>::empty());
            return (r, warnings);
        },
        Some(l) => l,
    };
    let kind = if bundle_copy {
        "applications-bundle-copy"
    } else {
        "applications-symlink"
    };
    let records = crate::native_gui::records_for(assets, kind, &link);
    assert(kind@ == macos_kind_spec(source@));
    assert(records_view(records@) == records_for_assets(assets_view(assets@), macos_kind_spec(source@), link@));
    assert(records_view(records@).len() == assets@.len());
    assert(records@.len() == records_view(records@).len());
    let ghost app_warnings = warnings@.len();
    let mut args: Vec<String> = Vec::new();
    args.push(String::from_str("-f"));
    args.push(link.clone());
    match host.run_command(
        "/System/Library/Frameworks/CoreServices.framework/Frameworks/LaunchServices.framework/Support/lsregister",
        &args,
        "failed to refresh macOS LaunchServices registry",
    ) {
        Ok(_) => {},
        Err(err) => {
            push_warning(&mut warnings, warning(&chars_of(err.as_str())));
        },
    }
    assert(warnings@.len() >= app_warnings);
    proof {
        assert(host.spec_ops().drop_last() =~= placed);
        assert(extends(host.spec_ops(), placed));
        lemma_placement_run_extends(
            bundle_copy,
            source@,
            *system,
            *user,
            records_view(previous@),
            MacosPlacementStep::PrepareSystem,
            placed,
            host.spec_ops(),
            start.len() as int,
            Seq::empty(),
        );
        assert(strings_view(args@) =~= seq!["-f"@, link@]);
    }
    (records, warnings)
}

} // verus!
