//! Installing from a downloaded artifact: which archive types are native
//! installers, how an artifact is staged on each host, the extraction
//! commands, and how `strip_components` maps archive paths into the package.
use vstd::prelude::*;

use crate::paths::{path_join, path_pieces};
use crate::text::{chars_eq_str, has_prefix, chars_of, extend_chars, extend_str, split_chars, string_of, string_of_vec, trim, trim_chars};
use crate::types::{strings_view, ArchiveType, HostPlatform, InstallMode};

verus! {

impl ArchiveType {
    pub open spec fn token(self) -> Seq<char> {
        match self {
            ArchiveType::Zip => "zip"@,
            ArchiveType::TarGz => "tar.gz"@,
            ArchiveType::TarZst => "tar.zst"@,
            ArchiveType::Bin => "bin"@,
            ArchiveType::AppImage => "appimage"@,
            ArchiveType::Msi => "msi"@,
            ArchiveType::Dmg => "dmg"@,
            ArchiveType::Exe => "exe"@,
            ArchiveType::Pkg => "pkg"@,
            ArchiveType::Msix => "msix"@,
            ArchiveType::Appx => "appx"@,
        }
    }

    /// The archive type's name.
    pub fn as_str(&self) -> (r: &'static str)
        ensures
            r@ == self.token(),
    {
        match self {
            ArchiveType::Zip => "zip",
            ArchiveType::TarGz => "tar.gz",
            ArchiveType::TarZst => "tar.zst",
            ArchiveType::Bin => "bin",
            ArchiveType::AppImage => "appimage",
            ArchiveType::Msi => "msi",
            ArchiveType::Dmg => "dmg",
            ArchiveType::Exe => "exe",
            ArchiveType::Pkg => "pkg",
            ArchiveType::Msix => "msix",
            ArchiveType::Appx => "appx",
        }
    }

    /// The extension of a cached artifact of this type: its name.
    pub fn cache_extension(&self) -> (r: &'static str)
        ensures
            r@ == self.token(),
    {
        self.as_str()
    }
}

/// What the user allows an installer to do to gain privileges.
#[derive(Clone, Copy, Debug, PartialEq, Eq)]
pub struct InstallInteractionPolicy {
    pub allow_prompt_escalation: bool,
    pub allow_non_prompt_escalation: bool,
}

/// Archive types that are installers of their host, which need escalation
/// when installed in native mode.
pub open spec fn native_default(t: ArchiveType) -> bool {
    t == ArchiveType::Msi || t == ArchiveType::Exe || t == ArchiveType::Pkg || t == ArchiveType::Msix
        || t == ArchiveType::Appx
}

pub fn is_native_default_archive_type(artifact_type: ArchiveType) -> (r: bool)
    ensures
        r == native_default(artifact_type),
{
    match artifact_type {
        ArchiveType::Msi | ArchiveType::Exe | ArchiveType::Pkg | ArchiveType::Msix
        | ArchiveType::Appx => true,
        _ => false,
    }
}

/// How an artifact's payload reaches the raw staging directory.
#[derive(Clone, Copy, Debug, PartialEq, Eq, Structural)]
pub enum StagingMethod {
    ExtractZip,
    ExtractTar,
    CopyBin,
    CopyAppImage,
    MsiAdminExtract,
    DmgAttach,
    ExeExtract,
    PkgExpand,
    MsixUnpack,
    AppxUnpack,
}

/// Why an artifact cannot be staged.
#[derive(Clone, Copy, Debug, PartialEq, Eq, Structural)]
pub enum ArtifactError {
    /// Native mode needs escalation that the policy forbids.
    EscalationForbidden,
    /// The archive type is only supported on another host.
    UnsupportedHost,
    /// Single-file artifacts cannot strip path components.
    StripNotSupported,
    /// Single-file artifacts have no root directory to pick.
    ArtifactRootNotSupported,
}

/// The host an archive type can be staged on, where it is tied to one.
pub open spec fn host_required(t: ArchiveType) -> Option<HostPlatform> {
    match t {
        ArchiveType::AppImage => Some(HostPlatform::Linux),
        ArchiveType::Msi | ArchiveType::Exe | ArchiveType::Msix | ArchiveType::Appx => Some(
            HostPlatform::Windows,
        ),
        ArchiveType::Dmg | ArchiveType::Pkg => Some(HostPlatform::Macos),
        _ => None,
    }
}

pub open spec fn staging_method(t: ArchiveType) -> StagingMethod {
    match t {
        ArchiveType::Zip => StagingMethod::ExtractZip,
        ArchiveType::TarGz => StagingMethod::ExtractTar,
        ArchiveType::TarZst => StagingMethod::ExtractTar,
        ArchiveType::Bin => StagingMethod::CopyBin,
        ArchiveType::AppImage => StagingMethod::CopyAppImage,
        ArchiveType::Msi => StagingMethod::MsiAdminExtract,
        ArchiveType::Dmg => StagingMethod::DmgAttach,
        ArchiveType::Exe => StagingMethod::ExeExtract,
        ArchiveType::Pkg => StagingMethod::PkgExpand,
        ArchiveType::Msix => StagingMethod::MsixUnpack,
        ArchiveType::Appx => StagingMethod::AppxUnpack,
    }
}

/// Tar archives, and only they, are staged by tar extraction, and zip
/// archives, and only they, by zip extraction: an archive type is staged by
/// tar extraction exactly when its name starts with `tar.`. No two other
/// archive types share a staging method.
pub proof fn lemma_archives_staged_by_their_own_extractor(t: ArchiveType, u: ArchiveType)
    ensures
        staging_method(t) == StagingMethod::ExtractTar <==> (t == ArchiveType::TarGz || t
            == ArchiveType::TarZst),
        staging_method(t) == StagingMethod::ExtractZip <==> t == ArchiveType::Zip,
        staging_method(t) == StagingMethod::ExtractTar <==> has_prefix(t.token(), "tar."@),
        t != u && staging_method(t) == staging_method(u) ==> staging_method(t)
            == StagingMethod::ExtractTar,
{
    reveal_strlit("tar.");
    reveal_strlit("zip");
    reveal_strlit("tar.gz");
    reveal_strlit("tar.zst");
    reveal_strlit("bin");
    reveal_strlit("appimage");
    reveal_strlit("msi");
    reveal_strlit("dmg");
    reveal_strlit("exe");
    reveal_strlit("pkg");
    reveal_strlit("msix");
    reveal_strlit("appx");
    if has_prefix(t.token(), "tar."@) {
        assert(t.token().take(4)[0] == t.token()[0]);
        assert("tar."@[0] == 't');
        assert(t.token()[0] == 't');
    }
    if t == ArchiveType::TarGz {
        assert(t.token().take(4) =~= "tar."@);
    }
    if t == ArchiveType::TarZst {
        assert(t.token().take(4) =~= "tar."@);
    }
}

/// A tar or zip archive is never refused: whatever the install mode,
/// policy, host, strip count or artifact root, it is staged by its own
/// extractor.
pub proof fn lemma_tar_and_zip_archives_always_stage(
    t: ArchiveType,
    strip_components: u32,
    artifact_root: Option<Seq<char>>,
    install_mode: InstallMode,
    policy: InstallInteractionPolicy,
    platform: HostPlatform,
)
    requires
        t == ArchiveType::TarGz || t == ArchiveType::TarZst || t == ArchiveType::Zip,
    ensures
        staging_plan_spec(t, strip_components, artifact_root, install_mode, policy, platform) == Ok::<
            StagingMethod,
            ArtifactError,
        >(if t == ArchiveType::Zip {
            StagingMethod::ExtractZip
        } else {
            StagingMethod::ExtractTar
        }),
{
}

/// How an artifact is staged on `platform`: refused in native mode for a
/// native installer when no escalation is allowed, refused on the wrong
/// host, and for single-file artifacts refused with a strip count or an
/// artifact root that is not blank.
pub open spec fn staging_plan_spec(
    artifact_type: ArchiveType,
    strip_components: u32,
    artifact_root: Option<Seq<char>>,
    install_mode: InstallMode,
    policy: InstallInteractionPolicy,
    platform: HostPlatform,
) -> Result<StagingMethod, ArtifactError> {
    let single_file = artifact_type == ArchiveType::Bin || artifact_type == ArchiveType::AppImage;
    let root_given = match artifact_root {
        Some(r) => trim(r).len() > 0,
        None => false,
    };
    if install_mode == InstallMode::Native && native_default(artifact_type)
        && !policy.allow_prompt_escalation && !policy.allow_non_prompt_escalation {
        Err(ArtifactError::EscalationForbidden)
    } else if host_required(artifact_type) is Some && host_required(artifact_type) != Some(platform) {
        Err(ArtifactError::UnsupportedHost)
    } else if single_file && strip_components != 0 {
        Err(ArtifactError::StripNotSupported)
    } else if single_file && root_given {
        Err(ArtifactError::ArtifactRootNotSupported)
    } else {
        Ok(staging_method(artifact_type))
    }
}

/// Decides how to stage an artifact (see `staging_plan_spec`).
pub fn artifact_staging_plan(
    artifact_type: ArchiveType,
    strip_components: u32,
    artifact_root: Option<&str>,
    install_mode: InstallMode,
    policy: InstallInteractionPolicy,
    platform: HostPlatform,
) -> (r: Result<StagingMethod, ArtifactError>)
    ensures
        r == staging_plan_spec(
            artifact_type,
            strip_components,
            match artifact_root {
                Some(s) => Some(s@),
                None => None,
            },
            install_mode,
            policy,
            platform,
        ),
{
    if install_mode == InstallMode::Native && is_native_default_archive_type(artifact_type)
        && !policy.allow_prompt_escalation && !policy.allow_non_prompt_escalation {
        return Err(ArtifactError::EscalationForbidden);
    }
    let required = match artifact_type {
        ArchiveType::AppImage => Some(HostPlatform::Linux),
        ArchiveType::Msi | ArchiveType::Exe | ArchiveType::Msix | ArchiveType::Appx => Some(
            HostPlatform::Windows,
        ),
        ArchiveType::Dmg | ArchiveType::Pkg => Some(HostPlatform::Macos),
        _ => None,
    };
    if let Some(host) = required {
        if host != platform {
            return Err(ArtifactError::UnsupportedHost);
        }
    }
    let single_file = artifact_type == ArchiveType::Bin || artifact_type == ArchiveType::AppImage;
    if single_file && strip_components != 0 {
        return Err(ArtifactError::StripNotSupported);
    }
    let root_given = match artifact_root {
        Some(r) => trim_chars(chars_of(r).as_slice()).len() > 0,
        None => false,
    };
    if single_file && root_given {
        return Err(ArtifactError::ArtifactRootNotSupported);
    }
    Ok(
        match artifact_type {
            ArchiveType::Zip => StagingMethod::ExtractZip,
            ArchiveType::TarGz | ArchiveType::TarZst => StagingMethod::ExtractTar,
            ArchiveType::Bin => StagingMethod::CopyBin,
            ArchiveType::AppImage => StagingMethod::CopyAppImage,
            ArchiveType::Msi => StagingMethod::MsiAdminExtract,
            ArchiveType::Dmg => StagingMethod::DmgAttach,
            ArchiveType::Exe => StagingMethod::ExeExtract,
            ArchiveType::Pkg => StagingMethod::PkgExpand,
            ArchiveType::Msix => StagingMethod::MsixUnpack,
            ArchiveType::Appx => StagingMethod::AppxUnpack,
        },
    )
}

/// Components of a Unix path that are names: pieces between slashes that
/// are neither empty, `.` nor `..`.
pub open spec fn name_components(ps: Seq<Seq<char>>) -> Seq<Seq<char>>
    decreases ps.len(),
{
    if ps.len() == 0 {
        Seq::empty()
    } else {
        let rest = name_components(ps.drop_last());
        let x = ps.last();
        if x.len() > 0 && x != seq!['.'] && x != seq!['.', '.'] {
            rest.push(x)
        } else {
            rest
        }
    }
}

/// A path relative to the archive root with its first `n` name components
/// dropped; `None` when nothing is left.
pub open spec fn strip_spec(p: Seq<char>, n: nat) -> Option<Seq<char>> {
    let names = name_components(path_pieces(p));
    if names.len() <= n {
        None
    } else {
        Some(crate::activation_plan::join_with(names.skip(n as int), '/'))
    }
}

/// Drops the first `strip_components` name components of a path (see
/// `strip_spec`).
pub fn strip_rel_components(path: &str, strip_components: usize) -> (r: Option<String>)
    ensures
        match r {
            Some(s) => strip_spec(path@, strip_components as nat) == Some(s@),
            None => strip_spec(path@, strip_components as nat) is None,
        },
{
    let c = chars_of(path);
    let pieces = split_chars(c.as_slice(), '/');
    let ghost all = path_pieces(path@);
    let n = pieces.len();
    let mut names: Vec<Vec<char>> = Vec::new();
    let mut i: usize = 0;
    proof {
        reveal_strlit(".");
        reveal_strlit("..");
        assert(all.take(0) =~= Seq::<Seq<char>>::empty());
    }
    while i < n
        invariant
            n == pieces@.len(),
            n == all.len(),
            all == path_pieces(path@),
            forall|k: int| 0 <= k < n ==> #[trigger] pieces@[k]@ == all[k],
            i <= n,
            names@.len() == name_components(all.take(i as int)).len(),
            forall|k: int|
                0 <= k < names@.len() ==> #[trigger] names@[k]@ == name_components(
                    all.take(i as int),
                )[k],
            "."@ == seq!['.'],
            ".."@ == seq!['.', '.'],
        decreases n - i,
    {
        proof {
            assert(all.take(i + 1).drop_last() =~= all.take(i as int));
            assert(all.take(i + 1).last() == all[i as int]);
        }
        let p = pieces[i].as_slice();
        if p.len() > 0 && !chars_eq_str(p, ".") && !chars_eq_str(p, "..") {
            let mut copy: Vec<char> = Vec::new();
            extend_chars(&mut copy, p);
            names.push(copy);
        }
        i = i + 1;
    }
    assert(all.take(n as int) =~= all);
    let total = names.len();
    if total <= strip_components {
        return None;
    }
    let ghost kept = name_components(all).skip(strip_components as int);
    let mut out: Vec<char> = Vec::new();
    let mut j: usize = strip_components;
    proof {
        assert(kept.take(0) =~= Seq::<Seq<char>>::empty());
    }
    while j < total
        invariant
            strip_components <= j <= total,
            total == names@.len(),
            total == name_components(all).len(),
            kept == name_components(all).skip(strip_components as int),
            forall|k: int| 0 <= k < total ==> #[trigger] names@[k]@ == name_components(all)[k],
            out@ == crate::activation_plan::join_with(
                kept.take(j - strip_components),
                '/',
            ),
        decreases total - j,
    {
        let ghost before = kept.take(j - strip_components);
        if j > strip_components {
            out.push('/');
        }
        extend_chars(&mut out, names[j].as_slice());
        proof {
            assert(kept.take(j - strip_components + 1) =~= before.push(names@[j as int]@));
            assert(before.push(names@[j as int]@).drop_last() =~= before);
            if j == strip_components {
                assert(before =~= Seq::<Seq<char>>::empty());
            }
        }
        j = j + 1;
    }
    assert(kept.take(total - strip_components) =~= kept);
    Some(string_of(out.as_slice()))
}

/// A program and its arguments.
pub type CommandLine = (String, Vec<String>);

pub open spec fn command_line_view(c: CommandLine) -> (Seq<char>, Seq<Seq<char>>) {
    (c.0@, strings_view(c.1@))
}

fn line_of(program: &str, args: Vec<String>) -> (r: CommandLine)
    ensures
        command_line_view(r) == (program@, strings_view(args@)),
{
    (program.to_owned(), args)
}

/// `msiexec /a <artifact> /qn TARGETDIR=<raw dir>`.
pub fn build_msi_admin_extract_command(artifact_path: &str, raw_dir: &str) -> (r: CommandLine)
    ensures
        command_line_view(r) == ("msiexec"@, seq!["/a"@, artifact_path@, "/qn"@, "TARGETDIR="@ + raw_dir@]),
{
    let mut target = chars_of("TARGETDIR=");
    extend_str(&mut target, raw_dir);
    let args = vec!["/a".to_owned(), artifact_path.to_owned(), "/qn".to_owned(), string_of(target.as_slice())];
    assert(strings_view(args@) =~= seq!["/a"@, artifact_path@, "/qn"@, "TARGETDIR="@ + raw_dir@]);
    line_of("msiexec", args)
}

/// `7z x <artifact> -o<raw dir> -y`.
pub fn build_exe_extract_command(artifact_path: &str, raw_dir: &str) -> (r: CommandLine)
    ensures
        command_line_view(r) == ("7z"@, seq!["x"@, artifact_path@, "-o"@ + raw_dir@, "-y"@]),
{
    let mut out_dir = chars_of("-o");
    extend_str(&mut out_dir, raw_dir);
    let args = vec!["x".to_owned(), artifact_path.to_owned(), string_of(out_dir.as_slice()), "-y".to_owned()];
    assert(strings_view(args@) =~= seq!["x"@, artifact_path@, "-o"@ + raw_dir@, "-y"@]);
    line_of("7z", args)
}

/// `makeappx unpack /p <artifact> /d <raw dir> /o` (MSIX and APPX alike).
pub fn build_msix_unpack_command(artifact_path: &str, raw_dir: &str) -> (r: CommandLine)
    ensures
        command_line_view(r) == (
            "makeappx"@,
            seq!["unpack"@, "/p"@, artifact_path@, "/d"@, raw_dir@, "/o"@],
        ),
{
    let args = vec![
        "unpack".to_owned(),
        "/p".to_owned(),
        artifact_path.to_owned(),
        "/d".to_owned(),
        raw_dir.to_owned(),
        "/o".to_owned(),
    ];
    assert(strings_view(args@) =~= seq!["unpack"@, "/p"@, artifact_path@, "/d"@, raw_dir@, "/o"@]);
    line_of("makeappx", args)
}

/// The APPX unpack command, the same as for MSIX.
pub fn build_appx_unpack_command(artifact_path: &str, raw_dir: &str) -> (r: CommandLine)
    ensures
        command_line_view(r) == (
            "makeappx"@,
            seq!["unpack"@, "/p"@, artifact_path@, "/d"@, raw_dir@, "/o"@],
        ),
{
    build_msix_unpack_command(artifact_path, raw_dir)
}

/// `hdiutil attach <artifact> -readonly -nobrowse -mountpoint <mount point>`.
pub fn build_dmg_attach_command(artifact_path: &str, mount_point: &str) -> (r: CommandLine)
    ensures
        command_line_view(r) == (
            "hdiutil"@,
            seq!["attach"@, artifact_path@, "-readonly"@, "-nobrowse"@, "-mountpoint"@, mount_point@],
        ),
{
    let args = vec![
        "attach".to_owned(),
        artifact_path.to_owned(),
        "-readonly".to_owned(),
        "-nobrowse".to_owned(),
        "-mountpoint".to_owned(),
        mount_point.to_owned(),
    ];
    assert(strings_view(args@) =~= seq![
        "attach"@,
        artifact_path@,
        "-readonly"@,
        "-nobrowse"@,
        "-mountpoint"@,
        mount_point@,
    ]);
    line_of("hdiutil", args)
}

/// `hdiutil detach <mount point>`.
pub fn build_dmg_detach_command(mount_point: &str) -> (r: CommandLine)
    ensures
        command_line_view(r) == ("hdiutil"@, seq!["detach"@, mount_point@]),
{
    let args = vec!["detach".to_owned(), mount_point.to_owned()];
    assert(strings_view(args@) =~= seq!["detach"@, mount_point@]);
    line_of("hdiutil", args)
}

/// `pkgutil --expand-full <artifact> <expanded dir>`.
pub fn build_pkg_expand_command(artifact_path: &str, expanded_dir: &str) -> (r: CommandLine)
    ensures
        command_line_view(r) == ("pkgutil"@, seq!["--expand-full"@, artifact_path@, expanded_dir@]),
{
    let args = vec!["--expand-full".to_owned(), artifact_path.to_owned(), expanded_dir.to_owned()];
    assert(strings_view(args@) =~= seq!["--expand-full"@, artifact_path@, expanded_dir@]);
    line_of("pkgutil", args)
}

/// `ditto <expanded payload> <raw dir>`.
pub fn build_pkg_copy_command(expanded_raw_dir: &str, raw_dir: &str) -> (r: CommandLine)
    ensures
        command_line_view(r) == ("ditto"@, seq![expanded_raw_dir@, raw_dir@]),
{
    let args = vec![expanded_raw_dir.to_owned(), raw_dir.to_owned()];
    assert(strings_view(args@) =~= seq![expanded_raw_dir@, raw_dir@]);
    line_of("ditto", args)
}

/// A path quoted for a PowerShell single-quoted string: each `'` doubled.
pub open spec fn ps_escaped(s: Seq<char>) -> Seq<char>
    decreases s.len(),
{
    if s.len() == 0 {
        Seq::empty()
    } else if s.last() == '\'' {
        ps_escaped(s.drop_last()) + seq!['\'', '\'']
    } else {
        ps_escaped(s.drop_last()).push(s.last())
    }
}

/// Doubles each `'` of a path (see `ps_escaped`).
pub fn escape_ps_single_quote(path: &str) -> (r: String)
    ensures
        r@ == ps_escaped(path@),
{
    let c = chars_of(path);
    let n = c.len();
    let mut out: Vec<char> = Vec::new();
    let mut i: usize = 0;
    assert(c@.take(0) =~= Seq::<char>::empty());
    while i < n
        invariant
            n == c@.len(),
            c@ == path@,
            i <= n,
            out@ == ps_escaped(c@.take(i as int)),
        decreases n - i,
    {
        proof {
            assert(c@.take(i + 1).drop_last() =~= c@.take(i as int));
        }
        if c[i] == '\'' {
            out.push('\'');
            out.push('\'');
        } else {
            out.push(c[i]);
        }
        i = i + 1;
    }
    assert(c@.take(n as int) =~= c@);
    string_of(out.as_slice())
}


pub open spec fn text_result(r: Result<(), String>) -> Result<(), Seq<char>> {
    match r {
        Ok(_) => Ok(()),
        Err(e) => Err(e@),
    }
}

/// How staging a PKG ends, from what expanding it, copying its payloads
/// (run only after a successful expansion) and cleaning up the expansion
/// gave: the first failure wins, and a failed cleanup after a failed step
/// is reported together with it.
pub open spec fn pkg_outcome_spec(
    expand: Result<(), Seq<char>>,
    copy: Option<Result<(), Seq<char>>>,
    cleanup: Result<(), Seq<char>>,
    expanded_dir: Seq<char>,
) -> Result<(), Seq<char>> {
    match (expand, copy, cleanup) {
        (Err(e), _, Ok(_)) => Err(e),
        (Err(e), _, Err(k)) => Err(
            "failed to expand PKG artifact: "@ + e + "; additionally failed to cleanup expanded payload "@
                + expanded_dir + ": "@ + k,
        ),
        (Ok(_), Some(Ok(_)), Ok(_)) => Ok(()),
        (Ok(_), Some(Err(c)), Ok(_)) => Err(c),
        (Ok(_), Some(Ok(_)), Err(k)) => Err(k),
        (Ok(_), Some(Err(c)), Err(k)) => Err(
            "failed to copy expanded PKG payload: "@ + c
                + "; additionally failed to cleanup expanded payload "@ + expanded_dir + ": "@ + k,
        ),
        (Ok(_), None, _) => Ok(()),
    }
}

fn text6(a: &str, b: &str, c: &str, d: &str, e: &str, f: &str) -> (r: String)
    ensures
        r@ == a@ + b@ + c@ + d@ + e@ + f@,
{
    let mut v: Vec<char> = Vec::new();
    extend_str(&mut v, a);
    extend_str(&mut v, b);
    extend_str(&mut v, c);
    extend_str(&mut v, d);
    extend_str(&mut v, e);
    extend_str(&mut v, f);
    string_of_vec(&v)
}

/// How staging a PKG ends (see `pkg_outcome_spec`).
pub fn pkg_staging_outcome(
    expand: Result<(), String>,
    copy: Option<Result<(), String>>,
    cleanup: Result<(), String>,
    expanded_dir: &str,
) -> (r: Result<(), String>)
    requires
        expand is Ok ==> copy is Some,
    ensures
        text_result(r) == pkg_outcome_spec(
            text_result(expand),
            match copy {
                Some(c) => Some(text_result(c)),
                None => None,
            },
            text_result(cleanup),
            expanded_dir@,
        ),
{
    match (expand, copy, cleanup) {
        (Err(e), _, Ok(_)) => Err(e),
        (Err(e), _, Err(k)) => Err(
            text6(
                "failed to expand PKG artifact: ",
                e.as_str(),
                "; additionally failed to cleanup expanded payload ",
                expanded_dir,
                ": ",
                k.as_str(),
            ),
        ),
        (Ok(_), Some(Ok(_)), Ok(_)) => Ok(()),
        (Ok(_), Some(Err(c)), Ok(_)) => Err(c),
        (Ok(_), Some(Ok(_)), Err(k)) => Err(k),
        (Ok(_), Some(Err(c)), Err(k)) => Err(
            text6(
                "failed to copy expanded PKG payload: ",
                c.as_str(),
                "; additionally failed to cleanup expanded payload ",
                expanded_dir,
                ": ",
                k.as_str(),
            ),
        ),
        (Ok(_), None, _) => Ok(()),
    }
}

/// How staging a DMG ends, from what copying the mounted payload and
/// detaching the mount gave: the first failure wins, and a failed detach
/// after a failed copy is reported together with it.
pub open spec fn dmg_outcome_spec(
    copy: Result<(), Seq<char>>,
    detach: Result<(), Seq<char>>,
    mount_point: Seq<char>,
) -> Result<(), Seq<char>> {
    match (copy, detach) {
        (Ok(_), Ok(_)) => Ok(()),
        (Err(c), Ok(_)) => Err(c),
        (Ok(_), Err(d)) => Err(d),
        (Err(c), Err(d)) => Err(
            "failed to copy mounted DMG payload: "@ + c + "; additionally failed to detach mount "@
                + mount_point + ": "@ + d,
        ),
    }
}

/// How staging a DMG ends (see `dmg_outcome_spec`).
pub fn dmg_staging_outcome(copy: Result<(), String>, detach: Result<(), String>, mount_point: &str) -> (r: Result<
    (),
    String,
>)
    ensures
        text_result(r) == dmg_outcome_spec(text_result(copy), text_result(detach), mount_point@),
{
    match (copy, detach) {
        (Ok(_), Ok(_)) => Ok(()),
        (Err(c), Ok(_)) => Err(c),
        (Ok(_), Err(d)) => Err(d),
        (Err(c), Err(d)) => Err(
            text6(
                "failed to copy mounted DMG payload: ",
                c.as_str(),
                "; additionally failed to detach mount ",
                mount_point,
                ": ",
                d.as_str(),
            ),
        ),
    }
}

/// The payload roots of an expanded PKG given its component packages, in
/// the order their names are listed: the top-level `Payload` when it is
/// there, then each component's `Payload`.
pub open spec fn pkg_roots_spec(expanded_dir: Seq<char>, top_level: bool, names: Seq<String>) -> Seq<
    Seq<char>,
> {
    (if top_level {
        seq![path_join(expanded_dir, "Payload"@)]
    } else {
        Seq::empty()
    }) + names.map_values(|n: String| path_join(path_join(expanded_dir, n@), "Payload"@))
}

/// Where an expanded PKG's payload is copied from: the top-level `Payload`
/// when `top_level` says it exists, then the `Payload` of each component
/// package in `components` (the names of the `.pkg` directories holding
/// one), ordered by name; `None` when there is neither.
pub fn pkg_payload_roots(expanded_dir: &str, top_level: bool, components: Vec<String>) -> (r: Option<
    Vec<String>,
>)
    ensures
        r is None <==> !top_level && components@.len() == 0,
        r matches Some(v) ==> exists|names: Seq<String>|
            crate::order::strings_sorted(names) && names.to_multiset() == components@.to_multiset()
                && #[trigger] crate::types::strings_view(v@) == pkg_roots_spec(
                expanded_dir@,
                top_level,
                names,
            ),
{
    if !top_level && components.len() == 0 {
        return None;
    }
    let names = crate::order::sort_strings(components);
    proof {
        vstd::seq_lib::to_multiset_len(names@);
        vstd::seq_lib::to_multiset_len(components@);
    }
    let mut roots: Vec<String> = Vec::new();
    if top_level {
        roots.push(crate::paths::join_path(expanded_dir, "Payload"));
    }
    let ghost head = crate::types::strings_view(roots@);
    let n = names.len();
    let mut i: usize = 0;
    while i < n
        invariant
            n == names@.len(),
            i <= n,
            head == (if top_level {
                seq![path_join(expanded_dir@, "Payload"@)]
            } else {
                Seq::<Seq<char>>::empty()
            }),
            crate::types::strings_view(roots@) == head + names@.take(i as int).map_values(
                |x: String| path_join(path_join(expanded_dir@, x@), "Payload"@),
            ),
        decreases n - i,
    {
        let dir = crate::paths::join_path(expanded_dir, names[i].as_str());
        let root = crate::paths::join_path(dir.as_str(), "Payload");
        let ghost before = crate::types::strings_view(roots@);
        roots.push(root);
        proof {
            assert(names@.take(i + 1) =~= names@.take(i as int).push(names@[i as int]));
            assert(crate::types::strings_view(roots@) =~= before.push(root@));
            assert(names@.take(i + 1).map_values(
                |x: String| path_join(path_join(expanded_dir@, x@), "Payload"@),
            ) =~= names@.take(i as int).map_values(
                |x: String| path_join(path_join(expanded_dir@, x@), "Payload"@),
            ).push(root@));
        }
        i = i + 1;
    }
    proof {
        assert(names@.take(n as int) =~= names@);
        if top_level {
            assert(head =~= seq![path_join(expanded_dir@, "Payload"@)]);
        } else {
            assert(head =~= Seq::<Seq<char>>::empty());
        }
        assert(crate::types::strings_view(roots@) == pkg_roots_spec(expanded_dir@, top_level, names@));
    }
    Some(roots)
}

} // verus!
