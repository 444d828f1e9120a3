//! Exposure of package content in the prefix: validated relative storage
//! paths, the tokens and names that exposed completions and GUI assets are
//! stored under, and the GUI exposure state (`asset=key\trel_path` rows).
use vstd::prelude::*;

use crate::activation_plan::join_with;
use crate::layout::PrefixLayout;
use crate::paths::{
    has_parent_component, has_parent_component_on, is_absolute_on, is_absolute_path, join_path,
    path_has_parent_component, path_join, path_join_on_host, join_path_on_host, path_pieces,
};
use crate::text::{
    char_is_ascii_alnum, char_is_ascii_alpha, char_lower, chars_eq_str, chars_of, ends_with_str,
    extend_chars, extend_str, is_ascii_alnum, is_ascii_alpha, lower, lower_seq, split_chars,
    split_on, string_of, to_lower, trim, trim_chars,
};
use crate::types::{ArtifactCompletionShell, GuiExposureAsset, HostPlatform};
use crate::receipts::{concat_lines, lemma_lines_of_concat};

verus! {

/// Why a stored or declared path, token or GUI declaration was refused.
#[derive(Clone, Copy, Debug, PartialEq, Eq, Structural)]
pub enum ExposureError {
    PathAbsolute,
    PathEmpty,
    PathHasParent,
    ProtocolSchemeEmpty,
    ProtocolSchemeStart,
    ProtocolSchemeInvalid,
    ExtensionEmpty,
    ExtensionInvalid,
    GuiStateRow,
    GuiKeyEmpty,
    DelimiterInValue,
    GuiAppIdEmpty,
    GuiDisplayNameEmpty,
    GuiMimeEmpty,
    DuplicateGuiKey,
}

impl ExposureError {
    /// The description of this error.
    pub open spec fn message_spec(&self) -> Seq<char> {
        match self {
            ExposureError::PathAbsolute => "path must be relative"@,
            ExposureError::PathEmpty => "path must not be empty"@,
            ExposureError::PathHasParent => "path must not include '..'"@,
            ExposureError::ProtocolSchemeEmpty => "protocol scheme must not be empty"@,
            ExposureError::ProtocolSchemeStart => "protocol scheme must start with an ASCII letter"@,
            ExposureError::ProtocolSchemeInvalid => "protocol scheme contains invalid character(s)"@,
            ExposureError::ExtensionEmpty => "file association extension must not be empty"@,
            ExposureError::ExtensionInvalid => "file association extension contains invalid character(s)"@,
            ExposureError::GuiStateRow => "invalid gui state row format"@,
            ExposureError::GuiKeyEmpty => "gui exposure key must not be empty"@,
            ExposureError::DelimiterInValue => "gui exposure state values must not contain tabs or newlines"@,
            ExposureError::GuiAppIdEmpty => "gui app id must not be empty"@,
            ExposureError::GuiDisplayNameEmpty => "gui app display_name must not be empty"@,
            ExposureError::GuiMimeEmpty => "gui app file association mime_type must not be empty"@,
            ExposureError::DuplicateGuiKey => "duplicate gui ownership key declaration"@,
        }
    }

    /// A human-readable description.
    pub fn message(&self) -> (r: &'static str)
        ensures
            r@ == self.message_spec(),
    {
        match self {
            ExposureError::PathAbsolute => "path must be relative",
            ExposureError::PathEmpty => "path must not be empty",
            ExposureError::PathHasParent => "path must not include '..'",
            ExposureError::ProtocolSchemeEmpty => "protocol scheme must not be empty",
            ExposureError::ProtocolSchemeStart => "protocol scheme must start with an ASCII letter",
            ExposureError::ProtocolSchemeInvalid => "protocol scheme contains invalid character(s)",
            ExposureError::ExtensionEmpty => "file association extension must not be empty",
            ExposureError::ExtensionInvalid => "file association extension contains invalid character(s)",
            ExposureError::GuiStateRow => "invalid gui state row format",
            ExposureError::GuiKeyEmpty => "gui exposure key must not be empty",
            ExposureError::DelimiterInValue => "gui exposure state values must not contain tabs or newlines",
            ExposureError::GuiAppIdEmpty => "gui app id must not be empty",
            ExposureError::GuiDisplayNameEmpty => "gui app display_name must not be empty",
            ExposureError::GuiMimeEmpty => "gui app file association mime_type must not be empty",
            ExposureError::DuplicateGuiKey => "duplicate gui ownership key declaration",
        }
    }
}

// ---------------------------------------------------------------------------
// relative paths

/// A path that stays inside the directory it is joined to on `platform`:
/// relative, not empty, with no `..` component (see `is_absolute_on`,
/// `has_parent_component_on`).
pub open spec fn relative_path_check(platform: HostPlatform, p: Seq<char>) -> Result<(), ExposureError> {
    if is_absolute_on(platform, p) {
        Err(ExposureError::PathAbsolute)
    } else if p.len() == 0 {
        Err(ExposureError::PathEmpty)
    } else if has_parent_component_on(platform, p) {
        Err(ExposureError::PathHasParent)
    } else {
        Ok(())
    }
}

fn check_relative_path(platform: HostPlatform, path: &str) -> (r: Result<(), ExposureError>)
    ensures
        r == relative_path_check(platform, path@),
{
    let c = chars_of(path);
    if crate::paths::path_is_absolute_on(platform, c.as_slice()) {
        return Err(ExposureError::PathAbsolute);
    }
    if c.len() == 0 {
        return Err(ExposureError::PathEmpty);
    }
    if crate::paths::path_has_parent_component_on(platform, c.as_slice()) {
        return Err(ExposureError::PathHasParent);
    }
    Ok(())
}

/// A GUI storage path (see `relative_path_check`).
pub fn validated_relative_gui_storage_path(platform: HostPlatform, path: &str) -> (r: Result<(), ExposureError>)
    ensures
        r == relative_path_check(platform, path@),
{
    check_relative_path(platform, path)
}

/// A completion path declared by a package (see `relative_path_check`).
pub fn validated_relative_completion_source_path(platform: HostPlatform, path: &str) -> (r: Result<(), ExposureError>)
    ensures
        r == relative_path_check(platform, path@),
{
    check_relative_path(platform, path)
}

/// A completion storage path (see `relative_path_check`).
pub fn validated_relative_completion_storage_path(platform: HostPlatform, path: &str) -> (r: Result<(), ExposureError>)
    ensures
        r == relative_path_check(platform, path@),
{
    check_relative_path(platform, path)
}

/// A binary path declared by a package (see `relative_path_check`).
pub fn validated_relative_binary_path(platform: HostPlatform, path: &str) -> (r: Result<(), ExposureError>)
    ensures
        r == relative_path_check(platform, path@),
{
    check_relative_path(platform, path)
}

// ---------------------------------------------------------------------------
// tokens

/// Characters kept in a file-name token.
pub open spec fn token_char(c: char) -> bool {
    is_ascii_alnum(c) || c == '-' || c == '_' || c == '.'
}

/// A file-name token: characters outside `[A-Za-z0-9._-]` become `_`; an
/// empty value becomes `_`.
pub open spec fn normalize_token_spec(s: Seq<char>) -> Seq<char> {
    if s.len() == 0 {
        seq!['_']
    } else {
        Seq::new(
            s.len(),
            |i: int|
                if token_char(s[i]) {
                    s[i]
                } else {
                    '_'
                },
        )
    }
}

fn normalize_token_chars(s: &[char]) -> (r: Vec<char>)
    ensures
        r@ == normalize_token_spec(s@),
{
    let n = s.len();
    if n == 0 {
        return vec!['_'];
    }
    let mut r: Vec<char> = Vec::new();
    let mut i: usize = 0;
    while i < n
        invariant
            n == s@.len(),
            i <= n,
            r@.len() == i,
            forall|k: int|
                0 <= k < i ==> #[trigger] r@[k] == if token_char(s@[k]) {
                    s@[k]
                } else {
                    '_'
                },
        decreases n - i,
    {
        let c = s[i];
        if char_is_ascii_alnum(c) || c == '-' || c == '_' || c == '.' {
            r.push(c);
        } else {
            r.push('_');
        }
        i = i + 1;
    }
    assert(r@ =~= normalize_token_spec(s@));
    r
}

/// The token a package name or app id is stored under (see
/// `normalize_token_spec`).
pub fn normalize_gui_token(value: &str) -> (r: String)
    ensures
        r@ == normalize_token_spec(value@),
{
    let c = chars_of(value);
    string_of(normalize_token_chars(c.as_slice()).as_slice())
}

/// The token a package name is stored under among completions (see
/// `normalize_token_spec`).
pub fn normalize_completion_token(value: &str) -> (r: String)
    ensures
        r@ == normalize_token_spec(value@),
{
    let c = chars_of(value);
    string_of(normalize_token_chars(c.as_slice()).as_slice())
}

/// Characters allowed in a URL scheme after its first letter.
pub open spec fn scheme_char(c: char) -> bool {
    is_ascii_alnum(c) || c == '+' || c == '-' || c == '.'
}

/// A protocol scheme, trimmed and lowercased: an ASCII letter followed by
/// letters, digits, `+`, `-` or `.`.
pub open spec fn protocol_scheme_spec(scheme: Seq<char>) -> Result<Seq<char>, ExposureError> {
    let t = lower_seq(trim(scheme));
    if t.len() == 0 {
        Err(ExposureError::ProtocolSchemeEmpty)
    } else if !is_ascii_alpha(t[0]) {
        Err(ExposureError::ProtocolSchemeStart)
    } else if exists|k: int| 1 <= k < t.len() && !scheme_char(#[trigger] t[k]) {
        Err(ExposureError::ProtocolSchemeInvalid)
    } else {
        Ok(t)
    }
}

/// Normalises a protocol scheme (see `protocol_scheme_spec`).
pub fn normalized_protocol_scheme(scheme: &str) -> (r: Result<String, ExposureError>)
    ensures
        match r {
            Ok(s) => protocol_scheme_spec(scheme@) == Ok::<Seq<char>, ExposureError>(s@),
            Err(e) => protocol_scheme_spec(scheme@) == Err::<Seq<char>, ExposureError>(e),
        },
{
    let c = chars_of(scheme);
    let t = to_lower(trim_chars(c.as_slice()).as_slice());
    if t.len() == 0 {
        return Err(ExposureError::ProtocolSchemeEmpty);
    }
    if !char_is_ascii_alpha(t[0]) {
        return Err(ExposureError::ProtocolSchemeStart);
    }
    let n = t.len();
    let mut i: usize = 1;
    while i < n
        invariant
            n == t@.len(),
            t@ == lower_seq(trim(scheme@)),
            is_ascii_alpha(t@[0]),
            1 <= i <= n,
            forall|k: int| 1 <= k < i ==> scheme_char(#[trigger] t@[k]),
        decreases n - i,
    {
        let ch = t[i];
        if !(char_is_ascii_alnum(ch) || ch == '+' || ch == '-' || ch == '.') {
            assert(!scheme_char(t@[i as int]));
            return Err(ExposureError::ProtocolSchemeInvalid);
        }
        i = i + 1;
    }
    Ok(string_of(t.as_slice()))
}

/// Characters allowed in a file extension after its dot.
pub open spec fn extension_char(c: char) -> bool {
    is_ascii_alnum(c) || c == '_' || c == '-'
}

/// A file extension, trimmed and lowercased, with a leading `.` added when
/// missing; after the dot only letters, digits, `_` and `-`.
pub open spec fn extension_spec(extension: Seq<char>) -> Result<Seq<char>, ExposureError> {
    let t = lower_seq(trim(extension));
    let n = dotted(t);
    if t.len() == 0 {
        Err(ExposureError::ExtensionEmpty)
    } else if exists|k: int| 1 <= k < n.len() && !extension_char(#[trigger] n[k]) {
        Err(ExposureError::ExtensionInvalid)
    } else {
        Ok(n)
    }
}

/// `t` with a leading `.` added when it has none.
pub open spec fn dotted(t: Seq<char>) -> Seq<char> {
    if t.len() > 0 && t[0] == '.' {
        t
    } else {
        seq!['.'] + t
    }
}

/// Normalises a file extension (see `extension_spec`).
pub fn normalized_extension(extension: &str) -> (r: Result<String, ExposureError>)
    ensures
        match r {
            Ok(s) => extension_spec(extension@) == Ok::<Seq<char>, ExposureError>(s@),
            Err(e) => extension_spec(extension@) == Err::<Seq<char>, ExposureError>(e),
        },
{
    let c = chars_of(extension);
    let t = to_lower(trim_chars(c.as_slice()).as_slice());
    if t.len() == 0 {
        return Err(ExposureError::ExtensionEmpty);
    }
    let normalized = if t[0] == '.' {
        t
    } else {
        let mut d = vec!['.'];
        extend_chars(&mut d, t.as_slice());
        d
    };
    let n = normalized.len();
    let ghost tv = lower_seq(trim(extension@));
    assert(normalized@ == dotted(tv));
    let mut i: usize = 1;
    while i < n
        invariant
            n == normalized@.len(),
            tv == lower_seq(trim(extension@)),
            tv.len() > 0,
            normalized@ == dotted(tv),
            1 <= i,
            forall|k: int| 1 <= k < i && k < n ==> extension_char(#[trigger] normalized@[k]),
        decreases n - i,
    {
        let ch = normalized[i];
        if !(char_is_ascii_alnum(ch) || ch == '_' || ch == '-') {
            assert(!extension_char(normalized@[i as int]));
            assert(1 <= i < normalized@.len());
            assert(exists|k: int| 1 <= k < normalized@.len() && !extension_char(#[trigger] normalized@[k]));
            assert(extension_spec(extension@) == Err::<Seq<char>, ExposureError>(
                ExposureError::ExtensionInvalid,
            ));
            return Err(ExposureError::ExtensionInvalid);
        }
        i = i + 1;
    }
    Ok(string_of(normalized.as_slice()))
}

/// A metadata value on one line: line breaks become spaces, then trimmed.
pub open spec fn sanitize_metadata_spec(value: Seq<char>) -> Seq<char> {
    trim(
        Seq::new(
            value.len(),
            |i: int|
                if value[i] == '\n' || value[i] == '\r' {
                    ' '
                } else {
                    value[i]
                },
        ),
    )
}

/// Puts a metadata value on one line (see `sanitize_metadata_spec`).
pub fn sanitize_gui_metadata_value(value: &str) -> (r: String)
    ensures
        r@ == sanitize_metadata_spec(value@),
{
    let c = chars_of(value);
    let n = c.len();
    let mut m: Vec<char> = Vec::new();
    let mut i: usize = 0;
    while i < n
        invariant
            n == c@.len(),
            c@ == value@,
            i <= n,
            m@.len() == i,
            forall|k: int|
                0 <= k < i ==> #[trigger] m@[k] == if c@[k] == '\n' || c@[k] == '\r' {
                    ' '
                } else {
                    c@[k]
                },
        decreases n - i,
    {
        let ch = c[i];
        if ch == '\n' || ch == '\r' {
            m.push(' ');
        } else {
            m.push(ch);
        }
        i = i + 1;
    }
    assert(m@ =~= Seq::new(
        value@.len(),
        |i: int|
            if value@[i] == '\n' || value@[i] == '\r' {
                ' '
            } else {
                value@[i]
            },
    ));
    string_of(trim_chars(m.as_slice()).as_slice())
}

/// A desktop-entry list token: on Linux line breaks and `;` become `_`, then
/// trimmed; elsewhere it is a metadata value.
pub open spec fn desktop_list_token_spec(platform: HostPlatform, value: Seq<char>) -> Seq<char> {
    if platform == HostPlatform::Linux {
        trim(
            Seq::new(
                value.len(),
                |i: int|
                    if value[i] == '\n' || value[i] == '\r' || value[i] == ';' {
                        '_'
                    } else {
                        value[i]
                    },
            ),
        )
    } else {
        sanitize_metadata_spec(value)
    }
}

/// Sanitises a desktop-entry list token (see `desktop_list_token_spec`).
pub fn sanitize_desktop_list_token(platform: HostPlatform, value: &str) -> (r: String)
    ensures
        r@ == desktop_list_token_spec(platform, value@),
{
    if platform != HostPlatform::Linux {
        return sanitize_gui_metadata_value(value);
    }
    let c = chars_of(value);
    let n = c.len();
    let mut m: Vec<char> = Vec::new();
    let mut i: usize = 0;
    while i < n
        invariant
            n == c@.len(),
            c@ == value@,
            i <= n,
            m@.len() == i,
            forall|k: int|
                0 <= k < i ==> #[trigger] m@[k] == if c@[k] == '\n' || c@[k] == '\r' || c@[k]
                    == ';' {
                    '_'
                } else {
                    c@[k]
                },
        decreases n - i,
    {
        let ch = c[i];
        if ch == '\n' || ch == '\r' || ch == ';' {
            m.push('_');
        } else {
            m.push(ch);
        }
        i = i + 1;
    }
    assert(m@ =~= Seq::new(
        value@.len(),
        |i: int|
            if value@[i] == '\n' || value@[i] == '\r' || value@[i] == ';' {
                '_'
            } else {
                value@[i]
            },
    ));
    string_of(trim_chars(m.as_slice()).as_slice())
}

// ---------------------------------------------------------------------------
// exposed completions and GUI assets

/// The normal components of a Unix path: pieces between slashes that are
/// neither empty nor `.`.
pub open spec fn normal_pieces(ps: Seq<Seq<char>>) -> Seq<Seq<char>>
    decreases ps.len(),
{
    if ps.len() == 0 {
        Seq::empty()
    } else {
        let rest = normal_pieces(ps.drop_last());
        if ps.last().len() > 0 && ps.last() != seq!['.'] {
            rest.push(ps.last())
        } else {
            rest
        }
    }
}

/// Parts joined with `sep`.
pub open spec fn join_text(parts: Seq<Seq<char>>, sep: Seq<char>) -> Seq<char>
    decreases parts.len(),
{
    if parts.len() == 0 {
        Seq::empty()
    } else if parts.len() == 1 {
        parts[0]
    } else {
        join_text(parts.drop_last(), sep) + sep + parts.last()
    }
}

/// A completion's path flattened into one file name: its normal components
/// as tokens joined by `--`, or `_` when it has none.
pub open spec fn completion_source_name(rel: Seq<char>) -> Seq<char> {
    let parts = normal_pieces(path_pieces(rel));
    if parts.len() == 0 {
        seq!['_']
    } else {
        join_text(parts.map_values(|x: Seq<char>| normalize_token_spec(x)), "--"@)
    }
}

fn completion_source_name_exec(rel: &[char]) -> (r: Vec<char>)
    ensures
        r@ == completion_source_name(rel@),
{
    let pieces = split_chars(rel, '/');
    let n = pieces.len();
    let ghost all = path_pieces(rel@);
    proof {
        reveal_strlit(".");
        assert("."@ =~= seq!['.']);
    }
    let mut out: Vec<char> = Vec::new();
    let mut count: usize = 0;
    let ghost mut kept: Seq<Seq<char>> = Seq::empty();
    let mut i: usize = 0;
    assert(all.take(0) =~= Seq::<Seq<char>>::empty());
    while i < n
        invariant
            n == pieces@.len(),
            n == all.len(),
            all == path_pieces(rel@),
            forall|k: int| 0 <= k < n ==> #[trigger] pieces@[k]@ == all[k],
            i <= n,
            kept == normal_pieces(all.take(i as int)),
            count == kept.len(),
            count <= i,
            "."@ =~= seq!['.'],
            out@ == join_text(kept.map_values(|x: Seq<char>| normalize_token_spec(x)), "--"@),
        decreases n - i,
    {
        proof {
            assert(all.take(i + 1).drop_last() =~= all.take(i as int));
            assert(all.take(i + 1).last() == all[i as int]);
        }
        let p = pieces[i].as_slice();
        if p.len() > 0 && !chars_eq_str(p, ".") {
            let tok = normalize_token_chars(p);
            let ghost before = kept;
            if count > 0 {
                extend_str(&mut out, "--");
            }
            extend_chars(&mut out, tok.as_slice());
            proof {
                kept = kept.push(all[i as int]);
                let m = kept.map_values(|x: Seq<char>| normalize_token_spec(x));
                assert(m.drop_last() =~= before.map_values(|x: Seq<char>| normalize_token_spec(x)));
                assert(m.last() == normalize_token_spec(all[i as int]));
                if count == 0 {
                    assert(m =~= seq![normalize_token_spec(all[i as int])]);
                }
            }
            count = count + 1;
        }
        i = i + 1;
    }
    assert(all.take(n as int) =~= all);
    if count == 0 {
        return vec!['_'];
    }
    out
}

/// Where a package's completion for a shell is stored under the
/// completions directory: `packages/<shell>/<package token>--<flattened path>`.
pub open spec fn projected_completion_spec(platform: HostPlatform, 
    package_name: Seq<char>,
    shell: ArtifactCompletionShell,
    rel: Seq<char>,
) -> Result<Seq<char>, ExposureError> {
    match relative_path_check(platform, rel) {
        Err(e) => Err(e),
        Ok(()) => Ok(
            "packages/"@ + shell.token() + seq!['/'] + normalize_token_spec(package_name) + "--"@
                + completion_source_name(rel),
        ),
    }
}

/// The storage path of a package's completion (see
/// `projected_completion_spec`).
pub fn projected_exposed_completion_path(platform: HostPlatform, 
    package_name: &str,
    shell: ArtifactCompletionShell,
    completion_rel_path: &str,
) -> (r: Result<String, ExposureError>)
    ensures
        match r {
            Ok(s) => projected_completion_spec(platform, package_name@, shell, completion_rel_path@) == Ok::<
                Seq<char>,
                ExposureError,
            >(s@),
            Err(e) => projected_completion_spec(platform, package_name@, shell, completion_rel_path@)
                == Err::<Seq<char>, ExposureError>(e),
        },
{
    if let Err(e) = check_relative_path(platform, completion_rel_path) {
        return Err(e);
    }
    let mut out = chars_of("packages/");
    extend_str(&mut out, shell.as_str());
    out.push('/');
    let pkg = chars_of(package_name);
    let tok = normalize_token_chars(pkg.as_slice());
    extend_chars(&mut out, tok.as_slice());
    extend_str(&mut out, "--");
    let rel = chars_of(completion_rel_path);
    let name = completion_source_name_exec(rel.as_slice());
    extend_chars(&mut out, name.as_slice());
    assert(out@ =~= "packages/"@ + shell.token() + seq!['/'] + normalize_token_spec(package_name@)
        + "--"@ + completion_source_name(completion_rel_path@));
    Ok(string_of(out.as_slice()))
}

/// The file a stored completion lives in, under the completions directory.
pub fn exposed_completion_path(platform: HostPlatform, layout: &PrefixLayout, completion_storage_rel_path: &str) -> (r: Result<
    String,
    ExposureError,
>)
    ensures
        match r {
            Ok(s) => relative_path_check(platform, completion_storage_rel_path@) is Ok && s@
                == path_join_on_host(
                layout.spec_windows(),
                layout.spec_completions_dir(),
                completion_storage_rel_path@,
            ),
            Err(e) => relative_path_check(platform, completion_storage_rel_path@) == Err::<(), ExposureError>(e),
        },
{
    if let Err(e) = check_relative_path(platform, completion_storage_rel_path) {
        return Err(e);
    }
    let dir = layout.completions_dir();
    Ok(join_path_on_host(layout.joins_as_windows(), dir.as_str(), completion_storage_rel_path))
}

/// The file a stored GUI asset lives in, under the GUI directory.
pub fn gui_asset_path(platform: HostPlatform, layout: &PrefixLayout, gui_storage_rel_path: &str) -> (r: Result<
    String,
    ExposureError,
>)
    ensures
        match r {
            Ok(s) => relative_path_check(platform, gui_storage_rel_path@) is Ok && s@
                == path_join_on_host(
                layout.spec_windows(),
                layout.spec_gui_dir(),
                gui_storage_rel_path@,
            ),
            Err(e) => relative_path_check(platform, gui_storage_rel_path@) == Err::<(), ExposureError>(e),
        },
{
    if let Err(e) = check_relative_path(platform, gui_storage_rel_path) {
        return Err(e);
    }
    let dir = layout.gui_dir();
    Ok(join_path_on_host(layout.joins_as_windows(), dir.as_str(), gui_storage_rel_path))
}

/// The exposed entry of a binary: `<bin>/<name>`, with `.cmd` on Windows,
/// joined as the layout joins its paths.
pub open spec fn bin_path_spec(layout: PrefixLayout, binary_name: Seq<char>, platform: HostPlatform) -> Seq<char> {
    if platform == HostPlatform::Windows {
        path_join_on_host(layout.spec_windows(), layout.spec_bin_dir(), binary_name + ".cmd"@)
    } else {
        path_join_on_host(layout.spec_windows(), layout.spec_bin_dir(), binary_name)
    }
}

/// The exposed entry of a binary on `platform` (see `bin_path_spec`).
pub fn bin_path_for(layout: &PrefixLayout, binary_name: &str, platform: HostPlatform) -> (r: String)
    ensures
        r@ == bin_path_spec(*layout, binary_name@, platform),
{
    let dir = layout.bin_dir();
    let windows = layout.joins_as_windows();
    if platform == HostPlatform::Windows {
        crate::paths::join_file_on_host(windows, dir.as_str(), binary_name, ".cmd")
    } else {
        join_path_on_host(windows, dir.as_str(), binary_name)
    }
}

/// The exposed entry of a binary on the host the layout was made on: with
/// `.cmd` where it joins paths as on Windows.
pub fn bin_path(layout: &PrefixLayout, binary_name: &str) -> (r: String)
    ensures
        r@ == bin_path_spec(
            *layout,
            binary_name@,
            if layout.spec_windows() {
                HostPlatform::Windows
            } else {
                HostPlatform::Linux
            },
        ),
{
    let platform = if layout.joins_as_windows() {
        HostPlatform::Windows
    } else {
        HostPlatform::Linux
    };
    bin_path_for(layout, binary_name, platform)
}

// ---------------------------------------------------------------------------
// GUI exposure state

/// An asset as its key and storage path.
pub open spec fn asset_view(a: GuiExposureAsset) -> (Seq<char>, Seq<char>) {
    (a.key@, a.rel_path@)
}

pub open spec fn assets_view(v: Seq<GuiExposureAsset>) -> Seq<(Seq<char>, Seq<char>)> {
    v.map_values(|a: GuiExposureAsset| asset_view(a))
}

/// One line of GUI state: blank lines and rows other than `asset=` are
/// skipped; an `asset=` row holds a key that is not blank, a tab, and a
/// valid storage path. Lines are trimmed first.
pub open spec fn gui_state_step(platform: HostPlatform, 
    acc: Result<Seq<(Seq<char>, Seq<char>)>, ExposureError>,
    line: Seq<char>,
) -> Result<Seq<(Seq<char>, Seq<char>)>, ExposureError> {
    match acc {
        Err(e) => Err(e),
        Ok(v) => {
            let t = trim(line);
            if t.len() == 0 || !crate::text::has_prefix(t, "asset="@) {
                Ok(v)
            } else {
                match crate::text::split_once(t.skip(6), '\t') {
                    None => Err(ExposureError::GuiStateRow),
                    Some((k, r)) => if trim(k).len() == 0 {
                        Err(ExposureError::GuiKeyEmpty)
                    } else {
                        match relative_path_check(platform, r) {
                            Err(e) => Err(e),
                            Ok(()) => Ok(v.push((k, r))),
                        }
                    },
                }
            }
        },
    }
}

pub open spec fn gui_state_fold(platform: HostPlatform, ls: Seq<Seq<char>>) -> Result<Seq<(Seq<char>, Seq<char>)>, ExposureError>
    decreases ls.len(),
{
    if ls.len() == 0 {
        Ok(Seq::empty())
    } else {
        gui_state_step(platform, gui_state_fold(platform, ls.drop_last()), ls.last())
    }
}

/// What reading GUI state text yields.
pub open spec fn parse_gui_state_spec(platform: HostPlatform, raw: Seq<char>) -> Result<Seq<(Seq<char>, Seq<char>)>, ExposureError> {
    gui_state_fold(platform, crate::text::lines(raw))
}

proof fn lemma_gui_error_sticks(platform: HostPlatform, all: Seq<Seq<char>>, i: int, e: ExposureError)
    requires
        0 <= i <= all.len(),
        gui_state_fold(platform, all.take(i)) == Err::<Seq<(Seq<char>, Seq<char>)>, ExposureError>(e),
    ensures
        gui_state_fold(platform, all) == Err::<Seq<(Seq<char>, Seq<char>)>, ExposureError>(e),
    decreases all.len() - i,
{
    if i < all.len() {
        assert(all.take(i + 1).drop_last() =~= all.take(i));
        lemma_gui_error_sticks(platform, all, i + 1, e);
    } else {
        assert(all.take(i) =~= all);
    }
}

/// Reads GUI exposure state text (see `parse_gui_state_spec`).
pub fn parse_gui_exposure_state(platform: HostPlatform, raw: &str) -> (r: Result<Vec<GuiExposureAsset>, ExposureError>)
    ensures
        match r {
            Ok(v) => parse_gui_state_spec(platform, raw@) == Ok::<Seq<(Seq<char>, Seq<char>)>, ExposureError>(
                assets_view(v@),
            ),
            Err(e) => parse_gui_state_spec(platform, raw@) == Err::<Seq<(Seq<char>, Seq<char>)>, ExposureError>(e),
        },
{
    let chars = chars_of(raw);
    let ls = crate::text::lines_of(chars.as_slice());
    let ghost all = crate::text::lines(raw@);
    let mut assets: Vec<GuiExposureAsset> = Vec::new();
    let n = ls.len();
    let mut i: usize = 0;
    proof {
        assert(all.take(0) =~= Seq::<Seq<char>>::empty());
        assert(assets_view(assets@) =~= Seq::<(Seq<char>, Seq<char>)>::empty());
        reveal_strlit("asset=");
    }
    while i < n
        invariant
            n == ls@.len(),
            n == all.len(),
            all == crate::text::lines(raw@),
            forall|k: int| 0 <= k < n ==> #[trigger] ls@[k]@ == all[k],
            i <= n,
            "asset="@.len() == 6,
            gui_state_fold(platform, all.take(i as int)) == Ok::<Seq<(Seq<char>, Seq<char>)>, ExposureError>(
                assets_view(assets@),
            ),
        decreases n - i,
    {
        proof {
            assert(all.take(i + 1).drop_last() =~= all.take(i as int));
            assert(all.take(i + 1).last() == all[i as int]);
        }
        let t = trim_chars(ls[i].as_slice());
        if t.len() > 0 && crate::text::starts_with_str(t.as_slice(), "asset=") {
            let payload = crate::text::slice_chars(t.as_slice(), 6, t.len());
            assert(payload@ =~= t@.skip(6));
            match crate::text::split_once_chars(payload.as_slice(), '\t') {
                None => {
                    proof {
                        lemma_gui_error_sticks(platform, all, i as int + 1, ExposureError::GuiStateRow);
                    }
                    return Err(ExposureError::GuiStateRow);
                },
                Some((k, rel)) => {
                    if trim_chars(k.as_slice()).len() == 0 {
                        proof {
                            lemma_gui_error_sticks(platform, all, i as int + 1, ExposureError::GuiKeyEmpty);
                        }
                        return Err(ExposureError::GuiKeyEmpty);
                    }
                    let rel_s = string_of(rel.as_slice());
                    if let Err(e) = check_relative_path(platform, rel_s.as_str()) {
                        proof {
                            lemma_gui_error_sticks(platform, all, i as int + 1, e);
                        }
                        return Err(e);
                    }
                    let ghost before = assets_view(assets@);
                    let a = GuiExposureAsset { key: string_of(k.as_slice()), rel_path: rel_s };
                    let ghost av = asset_view(a);
                    assets.push(a);
                    proof {
                        assert(assets_view(assets@) =~= before.push(av));
                    }
                },
            }
        }
        i = i + 1;
    }
    assert(all.take(n as int) =~= all);
    Ok(assets)
}

/// The row written for an asset.
pub open spec fn asset_line(a: (Seq<char>, Seq<char>)) -> Seq<char> {
    "asset="@ + a.0 + seq!['\t'] + a.1
}

/// The text written for a non-empty list of assets.
pub open spec fn render_gui_state(assets: Seq<(Seq<char>, Seq<char>)>) -> Seq<char> {
    concat_lines(assets.map_values(|a: (Seq<char>, Seq<char>)| asset_line(a)))
}

pub open spec fn asset_writable(a: (Seq<char>, Seq<char>)) -> bool {
    !a.0.contains('\n') && !a.0.contains('\t') && !a.1.contains('\n') && !a.1.contains('\t')
}

fn free_of_tab_and_newline(s: &str) -> (r: bool)
    ensures
        r == (!s@.contains('\n') && !s@.contains('\t')),
{
    let c = chars_of(s);
    !crate::text::contains_char(c.as_slice(), '\n') && !crate::text::contains_char(c.as_slice(), '\t')
}

/// The GUI state text for a package's assets: `None` when there are none
/// (the state file is then removed), an error when a key or path holds a tab
/// or a newline.
pub fn render_gui_exposure_state(assets: &Vec<GuiExposureAsset>) -> (r: Result<
    Option<String>,
    ExposureError,
>)
    ensures
        assets@.len() == 0 ==> r == Ok::<Option<String>, ExposureError>(None),
        assets@.len() > 0 ==> match r {
            Ok(Some(text)) => (forall|k: int|
                0 <= k < assets@.len() ==> asset_writable(#[trigger] assets_view(assets@)[k]))
                && text@ == render_gui_state(assets_view(assets@)),
            Ok(None) => false,
            Err(e) => e == ExposureError::DelimiterInValue && exists|k: int|
                0 <= k < assets@.len() && !asset_writable(#[trigger] assets_view(assets@)[k]),
        },
{
    let n = assets.len();
    if n == 0 {
        return Ok(None);
    }
    let ghost av = assets_view(assets@);
    let mut out: Vec<char> = Vec::new();
    let mut i: usize = 0;
    proof {
        assert(av.take(0).map_values(|a: (Seq<char>, Seq<char>)| asset_line(a)) =~= Seq::<
            Seq<char>,
        >::empty());
    }
    while i < n
        invariant
            n == assets@.len(),
            av == assets_view(assets@),
            av.len() == n,
            i <= n,
            forall|k: int| 0 <= k < i ==> asset_writable(#[trigger] av[k]),
            out@ == concat_lines(av.take(i as int).map_values(|a: (Seq<char>, Seq<char>)| asset_line(a))),
        decreases n - i,
    {
        let a = &assets[i];
        assert(av[i as int] == asset_view(*a));
        if !free_of_tab_and_newline(a.key.as_str()) || !free_of_tab_and_newline(a.rel_path.as_str()) {
            assert(!asset_writable(av[i as int]));
            return Err(ExposureError::DelimiterInValue);
        }
        let ghost before = out@;
        extend_str(&mut out, "asset=");
        extend_str(&mut out, a.key.as_str());
        out.push('\t');
        extend_str(&mut out, a.rel_path.as_str());
        out.push('\n');
        proof {
            let prev = av.take(i as int).map_values(|a: (Seq<char>, Seq<char>)| asset_line(a));
            let next = av.take(i + 1).map_values(|a: (Seq<char>, Seq<char>)| asset_line(a));
            assert(next =~= prev.push(asset_line(av[i as int])));
            assert(next.drop_last() =~= prev);
            assert(out@ =~= before + asset_line(av[i as int]) + seq!['\n']);
        }
        i = i + 1;
    }
    assert(av.take(n as int) =~= av);
    Ok(Some(string_of(out.as_slice())))
}

/// What reading back the row of asset `k` finds.
spec fn asset_row_reads_back(platform: HostPlatform, assets: Seq<(Seq<char>, Seq<char>)>, k: int) -> bool {
    let l = asset_line(assets[k]);
    &&& !l.contains('\n')
    &&& l.len() > 0
    &&& l.last() != '\r'
    &&& gui_state_step(platform, Ok(assets.take(k)), l) == Ok::<Seq<(Seq<char>, Seq<char>)>, ExposureError>(
        assets.take(k + 1),
    )
}

/// An asset that reads back as written.
pub open spec fn asset_round_trips(platform: HostPlatform, a: (Seq<char>, Seq<char>)) -> bool {
    &&& asset_writable(a)
    &&& trim(a.0).len() > 0
    &&& relative_path_check(platform, a.1) is Ok
    &&& !crate::text::is_ws(a.1.last())
}

proof fn lemma_asset_row(platform: HostPlatform, assets: Seq<(Seq<char>, Seq<char>)>, k: int)
    requires
        0 <= k < assets.len(),
        asset_round_trips(platform, assets[k]),
    ensures
        asset_row_reads_back(platform, assets, k),
{
    let a = assets[k];
    let l = asset_line(a);
    reveal_strlit("asset=");
    assert(!"asset="@.contains('\n'));
    assert(!seq!['\t'].contains('\n')) by {
        if seq!['\t'].contains('\n') {
            assert(seq!['\t'][0] == '\t');
        }
    }
    crate::text::lemma_concat_free("asset="@, a.0, '\n');
    crate::text::lemma_concat_free("asset="@ + a.0, seq!['\t'], '\n');
    crate::text::lemma_concat_free("asset="@ + a.0 + seq!['\t'], a.1, '\n');
    assert(a.1.len() > 0);
    assert(l.last() == a.1.last());
    assert(l[0] == 'a');
    crate::text::lemma_trim_unchanged(l);
    assert(crate::text::has_prefix(l, "asset="@)) by {
        assert(l.take(6) =~= "asset="@);
    }
    let payload = l.skip(6);
    assert(payload =~= a.0 + seq!['\t'] + a.1);
    assert forall|j: int| 0 <= j < a.0.len() implies payload[j] != '\t' by {
        assert(payload[j] == a.0[j]);
    }
    crate::text::lemma_find_first(payload, '\t', a.0.len() as int);
    assert(payload.take(a.0.len() as int) =~= a.0);
    assert(payload.skip(a.0.len() as int + 1) =~= a.1);
    assert(assets.take(k).push(a) =~= assets.take(k + 1));
}

proof fn lemma_gui_fold(platform: HostPlatform, assets: Seq<(Seq<char>, Seq<char>)>, k: int)
    requires
        0 <= k <= assets.len(),
        forall|j: int| 0 <= j < assets.len() ==> #[trigger] asset_row_reads_back(platform, assets, j),
    ensures
        gui_state_fold(platform, assets.take(k).map_values(|a: (Seq<char>, Seq<char>)| asset_line(a))) == Ok::<
            Seq<(Seq<char>, Seq<char>)>,
            ExposureError,
        >(assets.take(k)),
    decreases k,
{
    let ls = assets.take(k).map_values(|a: (Seq<char>, Seq<char>)| asset_line(a));
    if k == 0 {
        assert(ls =~= Seq::<Seq<char>>::empty());
        assert(assets.take(0) =~= Seq::<(Seq<char>, Seq<char>)>::empty());
    } else {
        lemma_gui_fold(platform, assets, k - 1);
        assert(asset_row_reads_back(platform, assets, k - 1));
        assert(ls.drop_last() =~= assets.take(k - 1).map_values(
            |a: (Seq<char>, Seq<char>)| asset_line(a),
        ));
        assert(ls.last() == asset_line(assets[k - 1]));
    }
}

/// Writing GUI exposure state and reading it back gives the same assets,
/// for assets that can be written and read back (see `asset_round_trips`).
pub proof fn lemma_gui_state_round_trip(platform: HostPlatform, assets: Seq<(Seq<char>, Seq<char>)>)
    requires
        forall|k: int| 0 <= k < assets.len() ==> asset_round_trips(platform, #[trigger] assets[k]),
    ensures
        parse_gui_state_spec(platform, render_gui_state(assets)) == Ok::<
            Seq<(Seq<char>, Seq<char>)>,
            ExposureError,
        >(assets),
{
    let ls = assets.map_values(|a: (Seq<char>, Seq<char>)| asset_line(a));
    assert forall|j: int| 0 <= j < assets.len() implies #[trigger] asset_row_reads_back(platform, assets, j) by {
        lemma_asset_row(platform, assets, j);
    }
    assert forall|k: int| 0 <= k < ls.len() implies !(#[trigger] ls[k]).contains('\n') && (
    ls[k].len() == 0 || ls[k].last() != '\r') by {
        assert(asset_row_reads_back(platform, assets, k));
    }
    lemma_lines_of_concat(ls);
    lemma_gui_fold(platform, assets, assets.len() as int);
    assert(assets.take(assets.len() as int) =~= assets);
}

} // verus!
