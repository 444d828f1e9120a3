use crosspack_installer::binaries::{binary_shim_contents, binary_source_candidates, stripped_macos_bundle_exec_rel_path};
use crosspack_installer::exposure::ExposureError;
use crosspack_installer::installed_state::{installed_state_document_candidates, installed_state_documents_to_clear};
use crosspack_installer::layout::PrefixLayout;
use crosspack_installer::pins::{pin_name_of_file, pin_value};
use crosspack_installer::types::{HostPlatform, InstallMode, InstallReason, InstallReceipt};

#[test]
fn pin_values_are_trimmed_and_blank_pins_are_none() {
    assert_eq!(pin_value("  ^1.2\n"), Some("^1.2".to_string()));
    assert_eq!(pin_value(" \n\t"), None);
    assert_eq!(pin_value(""), None);
}

#[test]
fn pin_files_are_named_after_their_package() {
    assert_eq!(pin_name_of_file("ripgrep.pin"), Some("ripgrep".to_string()));
    assert_eq!(pin_name_of_file("a.b.pin"), Some("a.b".to_string()));
    assert_eq!(pin_name_of_file(".pin"), None);
    assert_eq!(pin_name_of_file("ripgrep.txt"), None);
    assert_eq!(pin_name_of_file("ripgrep"), None);
}

#[test]
fn app_bundle_executables_have_a_stripped_form() {
    assert_eq!(
        stripped_macos_bundle_exec_rel_path("Zed.APP/Contents/MacOS/zed"),
        Some("Contents/MacOS/zed".to_string())
    );
    assert_eq!(stripped_macos_bundle_exec_rel_path("Zed.app/Contents/MacOS"), None);
    assert_eq!(stripped_macos_bundle_exec_rel_path("Zed/Contents/MacOS/zed"), None);
    assert_eq!(stripped_macos_bundle_exec_rel_path("./Zed.app/Contents/MacOS/zed"), None);
    assert_eq!(stripped_macos_bundle_exec_rel_path("Zed.app/Contents/Resources/zed"), None);
}

#[test]
fn binary_sources_are_looked_for_in_order() {
    assert_eq!(
        binary_source_candidates(HostPlatform::Linux, "/root/zed", "Zed.app/Contents/MacOS/zed"),
        Ok(vec![
            "/root/zed/Zed.app/Contents/MacOS/zed".to_string(),
            "/root/zed/Contents/MacOS/zed".to_string(),
        ])
    );
    assert_eq!(binary_source_candidates(HostPlatform::Linux, "/root/zed", "bin/zed"), Ok(vec!["/root/zed/bin/zed".to_string()]));
    assert_eq!(binary_source_candidates(HostPlatform::Linux, "/root/zed", "/bin/zed"), Err(ExposureError::PathAbsolute));
    assert_eq!(binary_source_candidates(HostPlatform::Linux, "/root/zed", ""), Err(ExposureError::PathEmpty));
    assert_eq!(binary_source_candidates(HostPlatform::Linux, "/root/zed", "a/../zed"), Err(ExposureError::PathHasParent));
    assert_eq!(binary_shim_contents("C:\\zed\\zed.exe"), "@echo off\r\n\"C:\\zed\\zed.exe\" %*\r\n");
}

fn receipt() -> InstallReceipt {
    InstallReceipt {
        name: "ripgrep".to_string(),
        version: "14.1.0".to_string(),
        dependencies: Vec::new(),
        target: Some("x86_64-unknown-linux-gnu".to_string()),
        artifact_url: None,
        artifact_sha256: None,
        cache_path: None,
        exposed_bins: Vec::new(),
        exposed_completions: Vec::new(),
        snapshot_id: None,
        install_mode: InstallMode::Managed,
        install_reason: InstallReason::Root,
        install_status: "installed".to_string(),
        installed_at_unix: 1,
    }
}

#[test]
fn installed_state_documents_looked_for_and_cleared() {
    let layout = PrefixLayout::new("/p");
    let candidates = installed_state_document_candidates(&layout, "ripgrep", Some(&receipt()));
    assert_eq!(candidates.len(), 3);
    assert_eq!(candidates[2], "/p/state/installed/ripgrep.state.json");
    assert_eq!(
        installed_state_document_candidates(&layout, "ripgrep", None),
        vec!["/p/state/installed/ripgrep.state.json".to_string()]
    );
    let cleared = installed_state_documents_to_clear(&layout, &receipt());
    assert_eq!(cleared[0], candidates[0]);
    assert_eq!(cleared[1], "/p/state/installed/ripgrep.state.json");
}
