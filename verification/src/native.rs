//! Native sidecar state: the uninstall actions recorded for native GUI
//! registrations (`version=1` followed by tab-separated
//! `uninstall_action=key\tkind\tpath` rows), and where native registrations
//! are projected on each host.
use vstd::prelude::*;

use crate::paths::{join_path, path_join};
use crate::receipts::concat_lines;
use crate::activation_plan::join_with;
use crate::text::{
    lower_seq, to_lower, chars_eq_str, chars_of, contains_char, extend_chars, extend_str, lines, lines_of,
    parse_unsigned, split_chars, split_on, split_once, split_once_chars, string_of, trim,
    trim_chars, u64_to_chars,
};
use crate::types::{
    GuiNativeRegistrationRecord, NativeSidecarState, NativeUninstallAction, TripleView,
};

verus! {

/// The sidecar format version this library reads and writes.
pub const NATIVE_SIDECAR_VERSION: u32 = 1;

/// Why a native sidecar could not be read or written.
#[derive(Clone, Debug, PartialEq, Eq)]
pub enum NativeSidecarError {
    /// A non-blank row without `=`; holds the trimmed row.
    InvalidRow(String),
    EmptyRowKey,
    InvalidVersion,
    UnsupportedVersion(u32),
    InvalidActionRow,
    EmptyActionKey,
    EmptyActionKind,
    EmptyActionPath,
    /// A value to be written holds a tab or a newline.
    DelimiterInValue,
}

/// Errors as plain values: the row text, when one is held, by its view.
pub enum SidecarErrorView {
    InvalidRow(Seq<char>),
    EmptyRowKey,
    InvalidVersion,
    UnsupportedVersion(u32),
    InvalidActionRow,
    EmptyActionKey,
    EmptyActionKind,
    EmptyActionPath,
    DelimiterInValue,
}

impl View for NativeSidecarError {
    type V = SidecarErrorView;

    open spec fn view(&self) -> SidecarErrorView {
        match self {
            NativeSidecarError::InvalidRow(s) => SidecarErrorView::InvalidRow(s@),
            NativeSidecarError::EmptyRowKey => SidecarErrorView::EmptyRowKey,
            NativeSidecarError::InvalidVersion => SidecarErrorView::InvalidVersion,
            NativeSidecarError::UnsupportedVersion(v) => SidecarErrorView::UnsupportedVersion(*v),
            NativeSidecarError::InvalidActionRow => SidecarErrorView::InvalidActionRow,
            NativeSidecarError::EmptyActionKey => SidecarErrorView::EmptyActionKey,
            NativeSidecarError::EmptyActionKind => SidecarErrorView::EmptyActionKind,
            NativeSidecarError::EmptyActionPath => SidecarErrorView::EmptyActionPath,
            NativeSidecarError::DelimiterInValue => SidecarErrorView::DelimiterInValue,
        }
    }
}

/// The description of a sidecar error.
pub open spec fn sidecar_message_spec(e: SidecarErrorView) -> Seq<char> {
    match e {
        SidecarErrorView::InvalidRow(line) => "invalid native sidecar row format: "@ + line,
        SidecarErrorView::EmptyRowKey => "native sidecar row key must not be empty"@,
        SidecarErrorView::InvalidVersion => "native sidecar version must be u32"@,
        SidecarErrorView::UnsupportedVersion(v) => "unsupported native sidecar version: "@
            + crate::text::decimal_string(v as nat),
        SidecarErrorView::InvalidActionRow => "invalid native uninstall action row format"@,
        SidecarErrorView::EmptyActionKey => "native uninstall action key must not be empty"@,
        SidecarErrorView::EmptyActionKind => "native uninstall action kind must not be empty"@,
        SidecarErrorView::EmptyActionPath => "native uninstall action path must not be empty"@,
        SidecarErrorView::DelimiterInValue =>
            "native uninstall action values must not contain tabs or newlines"@,
    }
}

impl NativeSidecarError {
    /// A human-readable description.
    pub fn message(&self) -> (r: String)
        ensures
            r@ == sidecar_message_spec(self@),
    {
        match self {
            NativeSidecarError::InvalidRow(line) => {
                let mut v = chars_of("invalid native sidecar row format: ");
                extend_str(&mut v, line.as_str());
                string_of(v.as_slice())
            },
            NativeSidecarError::EmptyRowKey => String::from_str(
                "native sidecar row key must not be empty",
            ),
            NativeSidecarError::InvalidVersion => String::from_str(
                "native sidecar version must be u32",
            ),
            NativeSidecarError::UnsupportedVersion(v) => {
                let mut m = chars_of("unsupported native sidecar version: ");
                let digits = u64_to_chars(*v as u64);
                extend_chars(&mut m, digits.as_slice());
                string_of(m.as_slice())
            },
            NativeSidecarError::InvalidActionRow => String::from_str(
                "invalid native uninstall action row format",
            ),
            NativeSidecarError::EmptyActionKey => String::from_str(
                "native uninstall action key must not be empty",
            ),
            NativeSidecarError::EmptyActionKind => String::from_str(
                "native uninstall action kind must not be empty",
            ),
            NativeSidecarError::EmptyActionPath => String::from_str(
                "native uninstall action path must not be empty",
            ),
            NativeSidecarError::DelimiterInValue => String::from_str(
                "native uninstall action values must not contain tabs or newlines",
            ),
        }
    }
}

/// A `key\tkind\tpath` row: exactly three tab-separated fields, none blank.
pub open spec fn parse_action_spec(value: Seq<char>) -> Result<TripleView, SidecarErrorView> {
    let parts = split_on(value, '\t');
    if parts.len() != 3 {
        Err(SidecarErrorView::InvalidActionRow)
    } else if trim(parts[0]).len() == 0 {
        Err(SidecarErrorView::EmptyActionKey)
    } else if trim(parts[1]).len() == 0 {
        Err(SidecarErrorView::EmptyActionKind)
    } else if trim(parts[2]).len() == 0 {
        Err(SidecarErrorView::EmptyActionPath)
    } else {
        Ok(TripleView { key: parts[0], kind: parts[1], path: parts[2] })
    }
}

/// What a sidecar reader has collected.
pub struct SidecarAcc {
    pub version: Option<u32>,
    pub actions: Seq<TripleView>,
}

/// One line of a sidecar: blank lines are skipped, `version` and action rows
/// (`uninstall_action`, or the older `record`) are read, other keys ignored.
pub open spec fn sidecar_step(acc: Result<SidecarAcc, SidecarErrorView>, line: Seq<char>) -> Result<
    SidecarAcc,
    SidecarErrorView,
> {
    match acc {
        Err(e) => Err(e),
        Ok(a) => {
            let t = trim(line);
            if t.len() == 0 {
                Ok(a)
            } else {
                match split_once(t, '=') {
                    None => Err(SidecarErrorView::InvalidRow(t)),
                    Some((k, v)) => if trim(k).len() == 0 {
                        Err(SidecarErrorView::EmptyRowKey)
                    } else if k == "version"@ {
                        match parse_unsigned(v, u32::MAX as int) {
                            Some(n) => Ok(SidecarAcc { version: Some(n as u32), ..a }),
                            None => Err(SidecarErrorView::InvalidVersion),
                        }
                    } else if k == "uninstall_action"@ || k == "record"@ {
                        match parse_action_spec(v) {
                            Ok(x) => Ok(SidecarAcc { actions: a.actions.push(x), ..a }),
                            Err(e) => Err(e),
                        }
                    } else {
                        Ok(a)
                    },
                }
            }
        },
    }
}

pub open spec fn sidecar_fold(ls: Seq<Seq<char>>) -> Result<SidecarAcc, SidecarErrorView>
    decreases ls.len(),
{
    if ls.len() == 0 {
        Ok(SidecarAcc { version: None, actions: Seq::empty() })
    } else {
        sidecar_step(sidecar_fold(ls.drop_last()), ls.last())
    }
}

/// What reading sidecar text yields: its actions, unless a declared version
/// other than 1 is found.
pub open spec fn parse_sidecar_spec(raw: Seq<char>) -> Result<Seq<TripleView>, SidecarErrorView> {
    match sidecar_fold(lines(raw)) {
        Err(e) => Err(e),
        Ok(a) => match a.version {
            Some(v) => if v != 1 {
                Err(SidecarErrorView::UnsupportedVersion(v))
            } else {
                Ok(a.actions)
            },
            None => Ok(a.actions),
        },
    }
}

pub open spec fn actions_view(v: Seq<NativeUninstallAction>) -> Seq<TripleView> {
    v.map_values(|a: NativeUninstallAction| a@)
}

fn parse_native_uninstall_action(value: &[char]) -> (r: Result<NativeUninstallAction, NativeSidecarError>)
    ensures
        match r {
            Ok(a) => parse_action_spec(value@) == Ok::<TripleView, SidecarErrorView>(a@),
            Err(e) => parse_action_spec(value@) == Err::<TripleView, SidecarErrorView>(e@),
        },
{
    let parts = split_chars(value, '\t');
    if parts.len() != 3 {
        return Err(NativeSidecarError::InvalidActionRow);
    }
    if trim_chars(parts[0].as_slice()).len() == 0 {
        return Err(NativeSidecarError::EmptyActionKey);
    }
    if trim_chars(parts[1].as_slice()).len() == 0 {
        return Err(NativeSidecarError::EmptyActionKind);
    }
    if trim_chars(parts[2].as_slice()).len() == 0 {
        return Err(NativeSidecarError::EmptyActionPath);
    }
    Ok(
        NativeUninstallAction {
            key: string_of(parts[0].as_slice()),
            kind: string_of(parts[1].as_slice()),
            path: string_of(parts[2].as_slice()),
        },
    )
}

proof fn lemma_sidecar_error_sticks(all: Seq<Seq<char>>, i: int, e: SidecarErrorView)
    requires
        0 <= i <= all.len(),
        sidecar_fold(all.take(i)) == Err::<SidecarAcc, SidecarErrorView>(e),
    ensures
        sidecar_fold(all) == Err::<SidecarAcc, SidecarErrorView>(e),
    decreases all.len() - i,
{
    if i < all.len() {
        assert(all.take(i + 1).drop_last() =~= all.take(i));
        lemma_sidecar_error_sticks(all, i + 1, e);
    } else {
        assert(all.take(i) =~= all);
    }
}

/// Reads native sidecar text (see `parse_sidecar_spec`).
pub fn parse_native_sidecar_state(raw: &str) -> (r: Result<NativeSidecarState, NativeSidecarError>)
    ensures
        match r {
            Ok(s) => parse_sidecar_spec(raw@) == Ok::<Seq<TripleView>, SidecarErrorView>(
                actions_view(s.uninstall_actions@),
            ),
            Err(e) => parse_sidecar_spec(raw@) == Err::<Seq<TripleView>, SidecarErrorView>(e@),
        },
{
    let chars = chars_of(raw);
    let ls = lines_of(chars.as_slice());
    let ghost all = lines(raw@);
    let mut version: Option<u32> = None;
    let mut actions: Vec<NativeUninstallAction> = Vec::new();
    let n = ls.len();
    let mut i: usize = 0;
    proof {
        assert(all.take(0) =~= Seq::<Seq<char>>::empty());
        assert(actions_view(actions@) =~= Seq::<TripleView>::empty());
    }
    while i < n
        invariant
            n == ls@.len(),
            n == all.len(),
            all == lines(raw@),
            forall|k: int| 0 <= k < n ==> #[trigger] ls@[k]@ == all[k],
            i <= n,
            sidecar_fold(all.take(i as int)) == Ok::<SidecarAcc, SidecarErrorView>(
                SidecarAcc { version: version, actions: actions_view(actions@) },
            ),
        decreases n - i,
    {
        proof {
            assert(all.take(i + 1).drop_last() =~= all.take(i as int));
            assert(all.take(i + 1).last() == all[i as int]);
        }
        let t = trim_chars(ls[i].as_slice());
        if t.len() > 0 {
            match split_once_chars(t.as_slice(), '=') {
                None => {
                    let e = NativeSidecarError::InvalidRow(string_of(t.as_slice()));
                    proof {
                        lemma_sidecar_error_sticks(all, i as int + 1, e@);
                    }
                    return Err(e);
                },
                Some((k, v)) => {
                    if trim_chars(k.as_slice()).len() == 0 {
                        proof {
                            lemma_sidecar_error_sticks(
                                all,
                                i as int + 1,
                                SidecarErrorView::EmptyRowKey,
                            );
                        }
                        return Err(NativeSidecarError::EmptyRowKey);
                    }
                    if chars_eq_str(k.as_slice(), "version") {
                        match crate::text::parse_u64(v.as_slice()) {
                            Some(x) if x <= 0xffff_ffff => {
                                version = Some(x as u32);
                            },
                            _ => {
                                proof {
                                    lemma_sidecar_error_sticks(
                                        all,
                                        i as int + 1,
                                        SidecarErrorView::InvalidVersion,
                                    );
                                }
                                return Err(NativeSidecarError::InvalidVersion);
                            },
                        }
                    } else if chars_eq_str(k.as_slice(), "uninstall_action") || chars_eq_str(
                        k.as_slice(),
                        "record",
                    ) {
                        match parse_native_uninstall_action(v.as_slice()) {
                            Ok(a) => {
                                let ghost before = actions_view(actions@);
                                let ghost av = a@;
                                actions.push(a);
                                proof {
                                    assert(actions_view(actions@) =~= before.push(av));
                                }
                            },
                            Err(e) => {
                                proof {
                                    lemma_sidecar_error_sticks(all, i as int + 1, e@);
                                }
                                return Err(e);
                            },
                        }
                    }
                },
            }
        }
        i = i + 1;
    }
    assert(all.take(n as int) =~= all);
    if let Some(v) = version {
        if v != NATIVE_SIDECAR_VERSION {
            return Err(NativeSidecarError::UnsupportedVersion(v));
        }
    }
    Ok(NativeSidecarState { uninstall_actions: actions })
}

/// The row written for one action.
pub open spec fn action_line(a: TripleView) -> Seq<char> {
    "uninstall_action="@ + a.key + seq!['\t'] + a.kind + seq!['\t'] + a.path
}

/// The text written for a non-empty list of actions.
pub open spec fn render_sidecar(actions: Seq<TripleView>) -> Seq<char> {
    concat_lines(seq!["version=1"@] + actions.map_values(|a: TripleView| action_line(a)))
}

pub open spec fn has_delimiter(s: Seq<char>) -> bool {
    s.contains('\n') || s.contains('\t')
}

pub open spec fn action_writable(a: TripleView) -> bool {
    !has_delimiter(a.key) && !has_delimiter(a.kind) && !has_delimiter(a.path)
}

fn has_delimiter_exec(s: &str) -> (r: bool)
    ensures
        r == has_delimiter(s@),
{
    let c = chars_of(s);
    contains_char(c.as_slice(), '\n') || contains_char(c.as_slice(), '\t')
}

/// The sidecar text for a package's uninstall actions: `None` when there are
/// none (the sidecar is then removed), an error when a value holds a tab or a
/// newline.
pub fn render_native_sidecar_state(state: &NativeSidecarState) -> (r: Result<
    Option<String>,
    NativeSidecarError,
>)
    ensures
        actions_view(state.uninstall_actions@).len() == 0 ==> r == Ok::<
            Option<String>,
            NativeSidecarError,
        >(None),
        actions_view(state.uninstall_actions@).len() > 0 ==> match r {
            Ok(Some(text)) => (forall|k: int|
                0 <= k < state.uninstall_actions@.len() ==> action_writable(
                    #[trigger] state.uninstall_actions@[k]@,
                )) && text@ == render_sidecar(actions_view(state.uninstall_actions@)),
            Ok(None) => false,
            Err(e) => e == NativeSidecarError::DelimiterInValue && exists|k: int|
                0 <= k < state.uninstall_actions@.len() && !action_writable(
                    #[trigger] state.uninstall_actions@[k]@,
                ),
        },
{
    let acts = &state.uninstall_actions;
    let n = acts.len();
    if n == 0 {
        return Ok(None);
    }
    let ghost av = actions_view(acts@);
    let mut out = chars_of("version=1\n");
    proof {
        reveal_strlit("version=1\n");
        reveal_strlit("version=1");
        let one = seq!["version=1"@];
        assert(one.drop_last() =~= Seq::<Seq<char>>::empty());
        assert(concat_lines(one.drop_last()) =~= Seq::<char>::empty());
        assert(one.last() == "version=1"@);
        assert(concat_lines(one) == concat_lines(one.drop_last()) + one.last() + seq!['\n']);
        assert(out@ =~= concat_lines(one));
        assert(av.take(0).map_values(|a: TripleView| action_line(a)) =~= Seq::<Seq<char>>::empty());
        assert(one + av.take(0).map_values(|a: TripleView| action_line(a)) =~= one);
    }
    let mut i: usize = 0;
    while i < n
        invariant
            n == acts@.len(),
            acts@ == state.uninstall_actions@,
            av == actions_view(acts@),
            av.len() == n,
            i <= n,
            forall|k: int| 0 <= k < i ==> action_writable(#[trigger] acts@[k]@),
            out@ == concat_lines(
                seq!["version=1"@] + av.take(i as int).map_values(|a: TripleView| action_line(a)),
            ),
        decreases n - i,
    {
        let a = &acts[i];
        if has_delimiter_exec(a.key.as_str()) || has_delimiter_exec(a.kind.as_str())
            || has_delimiter_exec(a.path.as_str()) {
            assert(!action_writable(acts@[i as int]@));
            return Err(NativeSidecarError::DelimiterInValue);
        }
        let ghost before = out@;
        extend_str(&mut out, "uninstall_action=");
        extend_str(&mut out, a.key.as_str());
        out.push('\t');
        extend_str(&mut out, a.kind.as_str());
        out.push('\t');
        extend_str(&mut out, a.path.as_str());
        out.push('\n');
        proof {
            let prev = seq!["version=1"@] + av.take(i as int).map_values(
                |a: TripleView| action_line(a),
            );
            let next = seq!["version=1"@] + av.take(i + 1).map_values(
                |a: TripleView| action_line(a),
            );
            assert(next =~= prev.push(action_line(acts@[i as int]@)));
            assert(next.drop_last() =~= prev);
            assert(out@ =~= before + action_line(acts@[i as int]@) + seq!['\n']);
        }
        i = i + 1;
    }
    assert(av.take(n as int) =~= av);
    Ok(Some(string_of(out.as_slice())))
}

/// The records of a sidecar, read back as native GUI registrations.
pub fn gui_records_from_sidecar(state: NativeSidecarState) -> (r: Vec<GuiNativeRegistrationRecord>)
    ensures
        r@.len() == state.uninstall_actions@.len(),
        forall|k: int| 0 <= k < r@.len() ==> #[trigger] r@[k]@ == state.uninstall_actions@[k]@,
{
    let mut acts = state.uninstall_actions;
    let ghost orig = acts@;
    let mut r: Vec<GuiNativeRegistrationRecord> = Vec::new();
    let mut rev: Vec<GuiNativeRegistrationRecord> = Vec::new();
    while acts.len() > 0
        invariant
            acts@ == orig.take(acts@.len() as int),
            acts@.len() <= orig.len(),
            rev@.len() + acts@.len() == orig.len(),
            forall|k: int|
                0 <= k < rev@.len() ==> #[trigger] rev@[k]@ == orig[orig.len() - 1 - k]@,
        decreases acts@.len(),
    {
        let a = acts.pop().unwrap();
        proof {
            assert(acts@ =~= orig.take(acts@.len() as int));
        }
        rev.push(GuiNativeRegistrationRecord::from_action(a));
    }
    while rev.len() > 0
        invariant
            rev@.len() + r@.len() == orig.len(),
            forall|k: int|
                0 <= k < rev@.len() ==> #[trigger] rev@[k]@ == orig[orig.len() - 1 - k]@,
            forall|k: int| 0 <= k < r@.len() ==> #[trigger] r@[k]@ == orig[k]@,
        decreases rev@.len(),
    {
        let x = rev.pop().unwrap();
        r.push(x);
    }
    r
}

/// The sidecar that records native GUI registrations as uninstall actions.
pub fn sidecar_from_gui_records(records: &Vec<GuiNativeRegistrationRecord>) -> (r: NativeSidecarState)
    ensures
        r.uninstall_actions@.len() == records@.len(),
        forall|k: int|
            0 <= k < records@.len() ==> #[trigger] r.uninstall_actions@[k]@ == records@[k]@,
{
    let mut acts: Vec<NativeUninstallAction> = Vec::new();
    let n = records.len();
    let mut i: usize = 0;
    while i < n
        invariant
            n == records@.len(),
            i <= n,
            acts@.len() == i,
            forall|k: int| 0 <= k < i ==> #[trigger] acts@[k]@ == records@[k]@,
        decreases n - i,
    {
        let rec = &records[i];
        acts.push(
            NativeUninstallAction {
                key: rec.key.clone(),
                kind: rec.kind.clone(),
                path: rec.path.clone(),
            },
        );
        i = i + 1;
    }
    NativeSidecarState { uninstall_actions: acts }
}

/// `<home>/.local/share/applications`.
pub fn project_linux_user_applications_dir(home: &str) -> (r: String)
    ensures
        r@ == path_join(path_join(path_join(home@, ".local"@), "share"@), "applications"@),
{
    let a = join_path(home, ".local");
    let b = join_path(a.as_str(), "share");
    join_path(b.as_str(), "applications")
}

/// `<appdata>/Microsoft/Windows/Start Menu/Programs`.
pub fn project_windows_start_menu_programs_dir(appdata: &str) -> (r: String)
    ensures
        r@ == path_join(
            path_join(path_join(path_join(appdata@, "Microsoft"@), "Windows"@), "Start Menu"@),
            "Programs"@,
        ),
{
    let a = join_path(appdata, "Microsoft");
    let b = join_path(a.as_str(), "Windows");
    let c = join_path(b.as_str(), "Start Menu");
    join_path(c.as_str(), "Programs")
}

/// `<home>/Applications`.
pub fn project_macos_user_applications_dir(home: &str) -> (r: String)
    ensures
        r@ == path_join(home@, "Applications"@),
{
    join_path(home, "Applications")
}

/// Where a macOS app is registered: system `/Applications` first, then the
/// user's `Applications`.
pub fn macos_registration_destination_candidates(home: &str, app_name: &str) -> (r: [String; 2])
    ensures
        r[0]@ == path_join("/Applications"@, app_name@),
        r[1]@ == path_join(path_join(home@, "Applications"@), app_name@),
{
    let system = join_path("/Applications", app_name);
    let user_dir = project_macos_user_applications_dir(home);
    let user = join_path(user_dir.as_str(), app_name);
    [system, user]
}

/// The components of a Unix path as `Path::components` yields them: `/`
/// for the root, `.` for a leading current directory, then the pieces that
/// are neither empty nor `.` (a `..` piece stands for the parent).
pub open spec fn path_components(p: Seq<char>) -> Seq<Seq<char>> {
    let pieces = crate::paths::path_pieces(p);
    let names = crate::exposure::normal_pieces(pieces);
    if crate::paths::is_absolute_path(p) {
        seq![seq!['/']] + names
    } else if pieces.len() > 0 && pieces[0] == seq!['.'] {
        seq![seq!['.']] + names
    } else {
        names
    }
}

/// A component that names a file or directory.
pub open spec fn is_normal_component(c: Seq<char>) -> bool {
    c != seq!['/'] && c != seq!['.'] && c != seq!['.', '.']
}

/// Index of the last `.` in `s`, or -1.
pub open spec fn last_dot(s: Seq<char>) -> int
    decreases s.len(),
{
    if s.len() == 0 {
        -1
    } else if s.last() == '.' {
        s.len() - 1
    } else {
        last_dot(s.drop_last())
    }
}

/// A name whose extension (`Path::extension`) is `app` in any case.
pub open spec fn is_app_bundle_name(name: Seq<char>) -> bool {
    let i = last_dot(name);
    i > 0 && lower_seq(name.skip(i + 1)) == "app"@
}

/// The first index at or after `i` of a normal component naming an app
/// bundle, or -1.
pub open spec fn first_app_bundle(cs: Seq<Seq<char>>, i: int) -> int
    decreases cs.len() - i,
{
    if i < 0 || i >= cs.len() {
        -1
    } else if is_normal_component(cs[i]) && is_app_bundle_name(cs[i]) {
        i
    } else {
        first_app_bundle(cs, i + 1)
    }
}

/// The normal components among `cs`.
pub open spec fn normal_components(cs: Seq<Seq<char>>) -> Seq<Seq<char>>
    decreases cs.len(),
{
    if cs.len() == 0 {
        Seq::empty()
    } else if is_normal_component(cs.last()) {
        normal_components(cs.drop_last()).push(cs.last())
    } else {
        normal_components(cs.drop_last())
    }
}

/// What macOS registers for an executable inside an install root: the
/// outermost `.app` bundle on the way to it, or the executable itself when
/// it lies in no bundle or outside the root.
pub open spec fn macos_source_spec(install_root: Seq<char>, source: Seq<char>) -> Seq<char> {
    let rc = path_components(install_root);
    let sc = path_components(source);
    if rc.len() <= sc.len() && sc.take(rc.len() as int) == rc {
        let rest = sc.skip(rc.len() as int);
        let k = first_app_bundle(rest, 0);
        if k < 0 {
            source
        } else {
            path_join(install_root, join_with(normal_components(rest.take(k + 1)), '/'))
        }
    } else {
        source
    }
}

pub(crate) fn path_components_exec(p: &[char]) -> (r: Vec<Vec<char>>)
    ensures
        r@.len() == path_components(p@).len(),
        forall|k: int| 0 <= k < r@.len() ==> #[trigger] r@[k]@ == path_components(p@)[k],
{
    let pieces = split_chars(p, '/');
    let ghost all = crate::paths::path_pieces(p@);
    let n = pieces.len();
    let mut r: Vec<Vec<char>> = Vec::new();
    proof {
        reveal_strlit(".");
        crate::text::lemma_split_on_nonempty(p@, '/');
    }
    let absolute = p.len() > 0 && p[0] == '/';
    let leading_dot = !absolute && n > 0 && chars_eq_str(pieces[0].as_slice(), ".");
    if absolute {
        r.push(vec!['/']);
    } else if leading_dot {
        r.push(vec!['.']);
    }
    let ghost head: Seq<Seq<char>> = if absolute {
        seq![seq!['/']]
    } else if leading_dot {
        seq![seq!['.']]
    } else {
        Seq::empty()
    };
    proof {
        assert(all.take(0) =~= Seq::<Seq<char>>::empty());
        assert(r@.len() == head.len());
        assert forall|k: int| 0 <= k < r@.len() implies #[trigger] r@[k]@ == (head
            + crate::exposure::normal_pieces(all.take(0)))[k] by {
            if absolute {
                assert(r@[0]@ =~= seq!['/']);
            } else {
                assert(r@[0]@ =~= seq!['.']);
            }
        }
    }
    let mut i: usize = 0;
    while i < n
        invariant
            n == pieces@.len(),
            n == all.len(),
            all == crate::paths::path_pieces(p@),
            forall|k: int| 0 <= k < n ==> #[trigger] pieces@[k]@ == all[k],
            i <= n,
            "."@ == seq!['.'],
            r@.len() == (head + crate::exposure::normal_pieces(all.take(i as int))).len(),
            forall|k: int|
                0 <= k < r@.len() ==> #[trigger] r@[k]@ == (head + crate::exposure::normal_pieces(
                    all.take(i as int),
                ))[k],
        decreases n - i,
    {
        proof {
            assert(all.take(i + 1).drop_last() =~= all.take(i as int));
            assert(all.take(i + 1).last() == all[i as int]);
        }
        let q = pieces[i].as_slice();
        if q.len() > 0 && !chars_eq_str(q, ".") {
            let mut copy: Vec<char> = Vec::new();
            crate::text::extend_chars(&mut copy, q);
            r.push(copy);
        }
        i = i + 1;
    }
    assert(all.take(n as int) =~= all);
    assert(path_components(p@) =~= head + crate::exposure::normal_pieces(all));
    r
}

pub(crate) fn component_is_normal(c: &[char]) -> (r: bool)
    ensures
        r == is_normal_component(c@),
{
    proof {
        reveal_strlit("/");
        reveal_strlit(".");
        reveal_strlit("..");
        assert("/"@ =~= seq!['/']);
        assert("."@ =~= seq!['.']);
        assert(".."@ =~= seq!['.', '.']);
    }
    !chars_eq_str(c, "/") && !chars_eq_str(c, ".") && !chars_eq_str(c, "..")
}

pub(crate) fn is_app_bundle_exec(name: &[char]) -> (r: bool)
    ensures
        r == is_app_bundle_name(name@),
{
    let n = name.len();
    let mut i: usize = n;
    assert(name@.take(n as int) =~= name@);
    while i > 0 && name[i - 1] != '.'
        invariant
            i <= n,
            n == name@.len(),
            last_dot(name@) == last_dot(name@.take(i as int)),
        decreases i,
    {
        assert(name@.take(i as int).drop_last() =~= name@.take(i - 1));
        i = i - 1;
    }
    if i == 0 {
        assert(name@.take(0) =~= Seq::<char>::empty());
        return false;
    }
    assert(name@.take(i as int).last() == name@[i - 1]);
    let dot = i - 1;
    if dot == 0 {
        return false;
    }
    let ext = to_lower(crate::text::slice_chars(name, dot + 1, n).as_slice());
    assert(name@.subrange(dot + 1, n as int) =~= name@.skip(dot + 1));
    chars_eq_str(ext.as_slice(), "app")
}

/// What macOS registers for a GUI executable (see `macos_source_spec`).
pub fn macos_registration_source_path(install_root: &str, source_path: &str) -> (r: String)
    ensures
        r@ == macos_source_spec(install_root@, source_path@),
{
    let root_chars = chars_of(install_root);
    let source_chars = chars_of(source_path);
    let rc = path_components_exec(root_chars.as_slice());
    let sc = path_components_exec(source_chars.as_slice());
    let ghost rcv = path_components(install_root@);
    let ghost scv = path_components(source_path@);
    if rc.len() > sc.len() {
        return source_path.to_owned();
    }
    let m = rc.len();
    let mut i: usize = 0;
    while i < m
        invariant
            m == rc@.len(),
            m <= sc@.len(),
            rcv == path_components(install_root@),
            scv == path_components(source_path@),
            rc@.len() == rcv.len(),
            sc@.len() == scv.len(),
            forall|k: int| 0 <= k < rc@.len() ==> #[trigger] rc@[k]@ == rcv[k],
            forall|k: int| 0 <= k < sc@.len() ==> #[trigger] sc@[k]@ == scv[k],
            i <= m,
            forall|k: int| 0 <= k < i ==> rcv[k] == scv[k],
        decreases m - i,
    {
        if !crate::text::chars_eq(rc[i].as_slice(), sc[i].as_slice()) {
            assert(scv.take(m as int)[i as int] != rcv[i as int]);
            return source_path.to_owned();
        }
        i = i + 1;
    }
    assert(scv.take(m as int) =~= rcv);
    let ghost rest = scv.skip(m as int);
    let total = sc.len();
    let mut bundle: Vec<char> = Vec::new();
    let mut any = false;
    let mut j: usize = m;
    assert(rest.take(0) =~= Seq::<Seq<char>>::empty());
    while j < total
        invariant
            m <= j <= total,
            total == sc@.len(),
            total == scv.len(),
            scv == path_components(source_path@),
            rcv == path_components(install_root@),
            rcv.len() == m,
            scv.take(m as int) == rcv,
            rest == scv.skip(m as int),
            forall|k: int| 0 <= k < sc@.len() ==> #[trigger] sc@[k]@ == scv[k],
            first_app_bundle(rest, 0) == first_app_bundle(rest, j - m),
            any == (normal_components(rest.take(j - m)).len() > 0),
            bundle@ == join_with(normal_components(rest.take(j - m)), '/'),
        decreases total - j,
    {
        let c = sc[j].as_slice();
        let ghost before = rest.take(j - m);
        proof {
            assert(rest[j - m] == scv[j as int]);
            assert(rest.take(j - m + 1).drop_last() =~= before);
            assert(rest.take(j - m + 1).last() == rest[j - m]);
        }
        if component_is_normal(c) {
            proof {
                crate::activation_plan::lemma_join_with_push(normal_components(before), c@, '/');
            }
            if any {
                bundle.push('/');
            }
            crate::text::extend_chars(&mut bundle, c);
            any = true;
            if is_app_bundle_exec(c) {
                proof {
                    assert(normal_components(rest.take(j - m + 1)) == normal_components(before).push(
                        c@,
                    ));
                    assert(first_app_bundle(rest, j - m) == j - m);
                }
                let joined = join_path(install_root, string_of(bundle.as_slice()).as_str());
                return joined;
            }
        }
        j = j + 1;
    }
    assert(first_app_bundle(rest, total - m) == -1);
    source_path.to_owned()
}

// ---------------------------------------------------------------------------
// reading back a written sidecar

/// An action that reads back as written: no tab or newline in its fields,
/// none of them blank, and a path that does not end in whitespace.
pub open spec fn action_round_trips(a: TripleView) -> bool {
    &&& action_writable(a)
    &&& trim(a.key).len() > 0
    &&& trim(a.kind).len() > 0
    &&& trim(a.path).len() > 0
    &&& !crate::text::is_ws(a.path.last())
}

/// What reading the row of action `k` finds.
spec fn action_row_reads_back(actions: Seq<TripleView>, k: int) -> bool {
    let l = action_line(actions[k]);
    &&& !l.contains('\n')
    &&& l.last() != '\r'
    &&& sidecar_step(
        Ok(SidecarAcc { version: Some(1), actions: actions.take(k) }),
        l,
    ) == Ok::<SidecarAcc, SidecarErrorView>(
        SidecarAcc { version: Some(1), actions: actions.take(k + 1) },
    )
}

#[verifier::spinoff_prover]
#[verifier::rlimit(40)]
proof fn lemma_action_row(actions: Seq<TripleView>, k: int)
    requires
        0 <= k < actions.len(),
        action_round_trips(actions[k]),
    ensures
        action_row_reads_back(actions, k),
{
    let a = actions[k];
    let l = action_line(a);
    let fields = seq![a.key, a.kind, a.path];
    let j = join_with(fields, '\t');
    reveal_strlit("uninstall_action=");
    reveal_strlit("uninstall_action");
    reveal_strlit("version");
    reveal_strlit("record");
    reveal_with_fuel(join_with, 3);
    assert(fields.drop_last().drop_last() =~= seq![a.key]);
    assert(fields.drop_last() =~= seq![a.key, a.kind]);
    assert(j =~= a.key + seq!['\t'] + a.kind + seq!['\t'] + a.path);
    assert(l =~= "uninstall_action="@ + j);
    assert forall|i: int| 0 <= i < fields.len() implies !(#[trigger] fields[i]).contains('\t')
        && !fields[i].contains('\n') by {}
    crate::activation_state::lemma_joined_free(fields, '\t', '\n');
    assert(!"uninstall_action="@.contains('\n'));
    crate::text::lemma_concat_free("uninstall_action="@, j, '\n');
    assert(a.path.len() > 0);
    assert(l.last() == a.path.last());
    assert(l[0] == 'u');
    crate::text::lemma_trim_unchanged(l);
    assert forall|i: int| 0 <= i < 16 implies l[i] != '=' by {
        assert(l[i] == "uninstall_action="@[i]);
    }
    assert(l[16] == '=');
    crate::text::lemma_find_first(l, '=', 16);
    assert(l.take(16) =~= "uninstall_action"@);
    assert(l.skip(17) =~= j);
    crate::activation_state::lemma_split_joined(fields, '\t');
    assert("uninstall_action"@.len() != "version"@.len());
    assert(trim("uninstall_action"@).len() > 0) by {
        crate::text::lemma_trim_nonblank("uninstall_action"@);
    }
    assert(actions.take(k).push(a) =~= actions.take(k + 1));
}

proof fn lemma_sidecar_fold_rows(actions: Seq<TripleView>, ls: Seq<Seq<char>>, k: int)
    requires
        0 <= k <= actions.len(),
        ls == seq!["version=1"@] + actions.map_values(|a: TripleView| action_line(a)),
        forall|j: int| 0 <= j < actions.len() ==> #[trigger] action_row_reads_back(actions, j),
        sidecar_fold(ls.take(1)) == Ok::<SidecarAcc, SidecarErrorView>(
            SidecarAcc { version: Some(1), actions: Seq::empty() },
        ),
    ensures
        sidecar_fold(ls.take(k + 1)) == Ok::<SidecarAcc, SidecarErrorView>(
            SidecarAcc { version: Some(1), actions: actions.take(k) },
        ),
    decreases k,
{
    if k == 0 {
        assert(actions.take(0) =~= Seq::<TripleView>::empty());
    } else {
        lemma_sidecar_fold_rows(actions, ls, k - 1);
        assert(action_row_reads_back(actions, k - 1));
        assert(ls.take(k + 1).drop_last() =~= ls.take(k));
        assert(ls.take(k + 1).last() == action_line(actions[k - 1]));
    }
}

/// Writing a sidecar and reading it back gives the same actions, for
/// actions that read back as written (see `action_round_trips`).
pub proof fn lemma_sidecar_round_trip(actions: Seq<TripleView>)
    requires
        forall|k: int| 0 <= k < actions.len() ==> action_round_trips(#[trigger] actions[k]),
    ensures
        parse_sidecar_spec(render_sidecar(actions)) == Ok::<Seq<TripleView>, SidecarErrorView>(
            actions,
        ),
{
    reveal_strlit("version=1");
    reveal_strlit("version");
    let ls = seq!["version=1"@] + actions.map_values(|a: TripleView| action_line(a));
    assert forall|j: int| 0 <= j < actions.len() implies #[trigger] action_row_reads_back(
        actions,
        j,
    ) by {
        lemma_action_row(actions, j);
    }
    let v = "version=1"@;
    assert(!v.contains('\n'));
    assert(v[0] == 'v');
    crate::text::lemma_trim_unchanged(v);
    assert forall|i: int| 0 <= i < 7 implies v[i] != '=' by {}
    crate::text::lemma_find_first(v, '=', 7);
    assert(v.take(7) =~= "version"@);
    assert(v.skip(8) =~= seq!['1']);
    assert(crate::text::unsigned_digits(seq!['1']) =~= seq!['1']);
    assert(crate::text::decimal_value(seq!['1']) == 1) by {
        let one = seq!['1'];
        assert(one.drop_last() =~= Seq::<char>::empty());
        assert(crate::text::decimal_value(Seq::<char>::empty()) == 0);
        assert(crate::text::digit_val('1') == 1);
        assert(one.last() == '1');
        assert(crate::text::decimal_value(one) == crate::text::decimal_value(one.drop_last()) * 10
            + crate::text::digit_val(one.last()));
    }
    assert(crate::text::all_digits(seq!['1']));
    assert(trim("version"@).len() > 0) by {
        crate::text::lemma_trim_nonblank("version"@);
    }
    assert forall|k: int| 0 <= k < ls.len() implies !(#[trigger] ls[k]).contains('\n') && (
    ls[k].len() == 0 || ls[k].last() != '\r') by {
        if k > 0 {
            assert(ls[k] == action_line(actions[k - 1]));
            assert(action_row_reads_back(actions, k - 1));
        } else {
            assert(ls[k] == v);
        }
    }
    crate::receipts::lemma_lines_of_concat(ls);
    assert(ls.take(1) =~= seq![v]);
    assert(seq![v].drop_last() =~= Seq::<Seq<char>>::empty());
    assert(sidecar_fold(seq![v].drop_last()) == Ok::<SidecarAcc, SidecarErrorView>(
        SidecarAcc { version: None, actions: Seq::empty() },
    ));
    assert(sidecar_fold(ls.take(1)) == Ok::<SidecarAcc, SidecarErrorView>(
        SidecarAcc { version: Some(1), actions: Seq::empty() },
    ));
    lemma_sidecar_fold_rows(actions, ls, actions.len() as int);
    assert(ls.take(actions.len() as int + 1) =~= ls);
    assert(actions.take(actions.len() as int) =~= actions);
}

} // verus!
