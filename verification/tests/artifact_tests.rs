use std::path::Path;

use crosspack_installer::artifact::{
    artifact_staging_plan, build_dmg_attach_command, build_exe_extract_command,
    build_msi_admin_extract_command, escape_ps_single_quote, is_native_default_archive_type,
    strip_rel_components, ArtifactError, InstallInteractionPolicy, StagingMethod,
};
use crosspack_installer::artifact::{dmg_staging_outcome, pkg_payload_roots, pkg_staging_outcome};
use crosspack_installer::types::{ArchiveType, HostPlatform, InstallMode};

#[test]
fn strip_components_behavior() {
    let p = "top/inner/bin/tool";
    assert_eq!(
        Path::new(&strip_rel_components(p, 1).expect("must exist")),
        Path::new("inner/bin/tool")
    );
    assert!(strip_rel_components(p, 4).is_none());
}

#[test]
fn strip_components_skips_non_name_components() {
    assert_eq!(strip_rel_components("./a//b/../c/", 0).as_deref(), Some("a/b/c"));
    assert_eq!(strip_rel_components("/a/b", 1).as_deref(), Some("b"));
    assert_eq!(strip_rel_components("", 0), None);
}

#[test]
fn native_installers_need_escalation_permission() {
    let forbid = InstallInteractionPolicy {
        allow_prompt_escalation: false,
        allow_non_prompt_escalation: false,
    };
    let allow = InstallInteractionPolicy {
        allow_prompt_escalation: true,
        allow_non_prompt_escalation: false,
    };
    assert!(is_native_default_archive_type(ArchiveType::Exe));
    assert!(!is_native_default_archive_type(ArchiveType::Dmg));
    assert_eq!(
        artifact_staging_plan(ArchiveType::Exe, 0, None, InstallMode::Native, forbid, HostPlatform::Windows),
        Err(ArtifactError::EscalationForbidden)
    );
    assert_eq!(
        artifact_staging_plan(ArchiveType::Exe, 0, None, InstallMode::Native, allow, HostPlatform::Windows),
        Ok(StagingMethod::ExeExtract)
    );
    assert_eq!(
        artifact_staging_plan(ArchiveType::Exe, 0, None, InstallMode::Managed, forbid, HostPlatform::Linux),
        Err(ArtifactError::UnsupportedHost)
    );
    assert_eq!(
        artifact_staging_plan(ArchiveType::Bin, 1, None, InstallMode::Managed, forbid, HostPlatform::Linux),
        Err(ArtifactError::StripNotSupported)
    );
    assert_eq!(
        artifact_staging_plan(ArchiveType::AppImage, 0, Some("root"), InstallMode::Managed, forbid, HostPlatform::Linux),
        Err(ArtifactError::ArtifactRootNotSupported)
    );
    assert_eq!(
        artifact_staging_plan(ArchiveType::Bin, 0, Some("  "), InstallMode::Managed, forbid, HostPlatform::Macos),
        Ok(StagingMethod::CopyBin)
    );
    assert_eq!(
        artifact_staging_plan(ArchiveType::TarZst, 3, Some("x"), InstallMode::Native, forbid, HostPlatform::Linux),
        Ok(StagingMethod::ExtractTar)
    );
}

#[test]
fn extraction_commands_name_their_tools() {
    assert_eq!(
        build_msi_admin_extract_command("C:\\a.msi", "C:\\raw"),
        (
            "msiexec".to_string(),
            vec!["/a".to_string(), "C:\\a.msi".to_string(), "/qn".to_string(), "TARGETDIR=C:\\raw".to_string()]
        )
    );
    assert_eq!(
        build_exe_extract_command("a.exe", "raw"),
        ("7z".to_string(), vec!["x".to_string(), "a.exe".to_string(), "-oraw".to_string(), "-y".to_string()])
    );
    assert_eq!(build_dmg_attach_command("a.dmg", "/mnt").1.len(), 6);
    assert_eq!(escape_ps_single_quote("it's"), "it''s");
}

fn line(program: &str, args: &[&str]) -> (String, Vec<String>) {
    (program.to_string(), args.iter().map(|a| a.to_string()).collect())
}

#[test]
fn stage_msi_builds_admin_extract_command() {
    let command = crosspack_installer::artifact::build_msi_admin_extract_command("/tmp/demo.msi", "/tmp/raw");
    assert_eq!(command, line("msiexec", &["/a", "/tmp/demo.msi", "/qn", "TARGETDIR=/tmp/raw"]));
}

#[test]
fn stage_exe_builds_extract_command_shape() {
    let command = crosspack_installer::artifact::build_exe_extract_command("C:/tmp/demo.exe", "C:/tmp/raw");
    assert_eq!(command, line("7z", &["x", "C:/tmp/demo.exe", "-oC:/tmp/raw", "-y"]));
}

#[test]
fn stage_msix_builds_unpack_command_shape() {
    let command = crosspack_installer::artifact::build_msix_unpack_command("C:/tmp/demo.msix", "C:/tmp/raw-msix");
    assert_eq!(
        command,
        line("makeappx", &["unpack", "/p", "C:/tmp/demo.msix", "/d", "C:/tmp/raw-msix", "/o"])
    );
}

#[test]
fn stage_appx_builds_unpack_command_shape() {
    let command = crosspack_installer::artifact::build_appx_unpack_command("C:/tmp/demo.appx", "C:/tmp/raw-appx");
    assert_eq!(
        command,
        line("makeappx", &["unpack", "/p", "C:/tmp/demo.appx", "/d", "C:/tmp/raw-appx", "/o"])
    );
}

#[test]
fn stage_exe_uses_extract_tool_not_installer_execution() {
    let command = crosspack_installer::artifact::build_exe_extract_command("C:/tmp/app.exe", "C:/tmp/raw");
    assert_ne!(command.0, "C:/tmp/app.exe");
}

#[test]
fn stage_pkg_builds_expand_command_shape() {
    let command = crosspack_installer::artifact::build_pkg_expand_command("/tmp/demo.pkg", "/tmp/pkg-expanded");
    assert_eq!(command, line("pkgutil", &["--expand-full", "/tmp/demo.pkg", "/tmp/pkg-expanded"]));
}

#[test]
fn stage_pkg_copy_and_cleanup_command_shapes_are_stable() {
    let copy = crosspack_installer::artifact::build_pkg_copy_command("/tmp/pkg-expanded/Payload", "/tmp/raw");
    assert_eq!(copy, line("ditto", &["/tmp/pkg-expanded/Payload", "/tmp/raw"]));
}

#[test]
fn stage_dmg_attach_and_detach_command_shapes_are_stable() {
    let attach = crosspack_installer::artifact::build_dmg_attach_command("/tmp/demo.dmg", "/tmp/mount-point");
    assert_eq!(
        attach,
        line("hdiutil", &["attach", "/tmp/demo.dmg", "-readonly", "-nobrowse", "-mountpoint", "/tmp/mount-point"])
    );
    let detach = crosspack_installer::artifact::build_dmg_detach_command("/tmp/mount-point");
    assert_eq!(detach, line("hdiutil", &["detach", "/tmp/mount-point"]));
}

#[test]
fn staging_outcomes_keep_the_first_failure() {
    assert_eq!(pkg_staging_outcome(Ok(()), Some(Ok(())), Ok(()), "/x"), Ok(()));
    assert_eq!(pkg_staging_outcome(Err("e".to_string()), None, Ok(()), "/x"), Err("e".to_string()));
    assert_eq!(
        pkg_staging_outcome(Ok(()), Some(Err("c".to_string())), Err("k".to_string()), "/x"),
        Err("failed to copy expanded PKG payload: c; additionally failed to cleanup expanded payload /x: k".to_string())
    );
    assert_eq!(
        pkg_staging_outcome(Err("e".to_string()), None, Err("k".to_string()), "/x"),
        Err("failed to expand PKG artifact: e; additionally failed to cleanup expanded payload /x: k".to_string())
    );
    assert_eq!(dmg_staging_outcome(Ok(()), Err("d".to_string()), "/m"), Err("d".to_string()));
    assert_eq!(
        dmg_staging_outcome(Err("c".to_string()), Err("d".to_string()), "/m"),
        Err("failed to copy mounted DMG payload: c; additionally failed to detach mount /m: d".to_string())
    );
}

#[test]
fn pkg_payload_roots_put_top_level_first_then_components_by_name() {
    let roots = pkg_payload_roots(
        "/tmp/expanded",
        true,
        vec!["zeta.pkg".to_string(), "alpha.pkg".to_string()],
    )
    .expect("payload roots must be found");
    assert_eq!(
        roots,
        vec![
            "/tmp/expanded/Payload".to_string(),
            "/tmp/expanded/alpha.pkg/Payload".to_string(),
            "/tmp/expanded/zeta.pkg/Payload".to_string(),
        ]
    );
    let nested_only = pkg_payload_roots("/tmp/expanded", false, vec!["b.pkg".to_string()])
        .expect("component payload must be found");
    assert_eq!(nested_only, vec!["/tmp/expanded/b.pkg/Payload".to_string()]);
}

#[test]
fn pkg_payload_roots_are_missing_without_any_payload() {
    assert_eq!(pkg_payload_roots("/tmp/expanded", false, Vec::new()), None);
}
