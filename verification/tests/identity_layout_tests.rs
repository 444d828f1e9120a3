use std::path::{Path, PathBuf};

use crosspack_installer::identity::{InstalledPackageIdentity, InstalledPackageSelector};
use crosspack_installer::layout::PrefixLayout;
use crosspack_installer::paths::join_path_on_host;
use crosspack_installer::types::{ArchiveType, InstallMode, InstallReason, InstallReceipt, TransactionStatus};

fn test_layout() -> PrefixLayout {
    PrefixLayout::new("/tmp/crosspack-installer-tests-layout")
}

fn p(s: String) -> PathBuf {
    PathBuf::from(s)
}

#[test]
fn installed_package_identity_imports_legacy_receipt_and_builds_deterministic_key() {
    let receipt = InstallReceipt {
        name: "demo".to_string(),
        version: "1.2.3".to_string(),
        dependencies: Vec::new(),
        target: Some("x86_64-unknown-linux-gnu".to_string()),
        artifact_url: None,
        artifact_sha256: None,
        cache_path: None,
        exposed_bins: Vec::new(),
        exposed_completions: Vec::new(),
        snapshot_id: None,
        install_mode: InstallMode::Managed,
        install_reason: InstallReason::Root,
        install_status: "installed".to_string(),
        installed_at_unix: 1,
    };

    let identity = InstalledPackageIdentity::from_legacy_receipt(&receipt);
    assert_eq!(identity.profile, "default");
    assert_eq!(identity.target.as_deref(), Some("x86_64-unknown-linux-gnu"));
    assert_eq!(identity.source_namespace, "default");
    assert_eq!(identity.source_provenance.as_deref(), Some("unknown"));
    assert_eq!(identity.package, "demo");
    assert_eq!(
        identity.state_key(),
        "default--x86_64-unknown-linux-gnu--default--demo"
    );
    assert_eq!(
        identity.selector_display(),
        "demo --target x86_64-unknown-linux-gnu --profile default --source default"
    );
}

#[test]
fn installed_package_selector_matches_only_requested_dimensions() {
    let identity = InstalledPackageIdentity {
        profile: "tools".to_string(),
        target: Some("aarch64-apple-darwin".to_string()),
        source_namespace: "community".to_string(),
        source_provenance: Some("community".to_string()),
        package: "ripgrep".to_string(),
    };

    assert!(InstalledPackageSelector {
        package: "ripgrep".to_string(),
        target: None,
        profile: None,
        source_namespace: None,
    }
    .matches(&identity));
    assert!(InstalledPackageSelector {
        package: "ripgrep".to_string(),
        target: Some("aarch64-apple-darwin".to_string()),
        profile: Some("tools".to_string()),
        source_namespace: Some("community".to_string()),
    }
    .matches(&identity));
    assert!(!InstalledPackageSelector {
        package: "ripgrep".to_string(),
        target: Some("x86_64-unknown-linux-gnu".to_string()),
        profile: Some("tools".to_string()),
        source_namespace: Some("community".to_string()),
    }
    .matches(&identity));
}

#[test]
fn transaction_paths_match_spec_layout() {
    let layout = test_layout();
    let state = p(layout.state_dir());
    assert_eq!(p(layout.transactions_dir()), state.join("transactions"));
    assert_eq!(
        p(layout.transaction_active_path()),
        state.join("transactions").join("active")
    );
    assert_eq!(
        p(layout.transaction_metadata_path("tx-1")),
        state.join("transactions").join("tx-1.json")
    );
    assert_eq!(
        p(layout.transaction_journal_path("tx-1")),
        state.join("transactions").join("tx-1.journal")
    );
    assert_eq!(
        p(layout.transaction_staging_path("tx-1")),
        state.join("transactions").join("staging").join("tx-1")
    );
}

#[test]
fn transaction_status_parses_all_supported_tokens() {
    let cases = [
        ("planning", TransactionStatus::Planning),
        ("applying", TransactionStatus::Applying),
        ("completed", TransactionStatus::Completed),
        ("committed", TransactionStatus::Committed),
        ("rolling_back", TransactionStatus::RollingBack),
        ("rolled_back", TransactionStatus::RolledBack),
        ("failed", TransactionStatus::Failed),
    ];

    for (token, expected) in cases {
        assert_eq!(
            TransactionStatus::parse(token).expect("status should parse"),
            expected
        );
        assert_eq!(expected.as_str(), token);
    }
}

#[test]
fn installed_state_document_path_uses_installed_state_directory() {
    let layout = PrefixLayout::new("/tmp/crosspack-test-prefix");

    assert_eq!(
        p(layout.installed_state_document_path("ripgrep")),
        PathBuf::from("/tmp/crosspack-test-prefix/state/installed/ripgrep.state.json")
    );
}

#[test]
fn layout_paths_join_like_path_buf() {
    let layout = PrefixLayout::new("/opt/cp/");
    assert_eq!(layout.bin_dir(), "/opt/cp/bin");
    assert_eq!(layout.shell_init_dir(), "/opt/cp/share/shell/init");
    assert_eq!(layout.identity_pkgs_dir(), "/opt/cp/pkgs/identities/v1");
    assert_eq!(layout.pin_path("rg"), "/opt/cp/state/pins/rg.pin");
    assert_eq!(layout.package_dir("rg", "14.0.0"), "/opt/cp/pkgs/rg/14.0.0");
    assert_eq!(
        layout.integration_activation_state_path(),
        "/opt/cp/state/installed/integrations.activation"
    );
    let absolute_part = PrefixLayout::new("/opt/cp");
    assert_eq!(
        p(absolute_part.transaction_staging_path("/elsewhere")),
        Path::new("/opt/cp/state/transactions/staging").join("/elsewhere")
    );
}

#[test]
fn identity_paths_use_state_keys() {
    let layout = PrefixLayout::new("/p");
    let identity = InstalledPackageIdentity {
        profile: "default".to_string(),
        target: None,
        source_namespace: "core".to_string(),
        source_provenance: None,
        package: "fd".to_string(),
    };
    assert_eq!(identity.state_key(), "default--host--core--fd");
    assert_eq!(identity.legacy_state_key(), "default--host--fd");
    assert_eq!(identity.source_provenance_label(), "unknown");
    assert_eq!(
        layout.identity_receipt_path(&identity),
        "/p/state/installed/default--host--core--fd.receipt"
    );
    assert_eq!(
        layout.installed_legacy_identity_state_document_path(&identity),
        "/p/state/installed/default--host--fd.state.json"
    );
    assert_eq!(
        layout.identity_package_dir(&identity, "1.0.0"),
        "/p/pkgs/identities/v1/default/host/core/fd/1.0.0"
    );
}

#[test]
fn artifact_cache_path_names_the_artifact_by_package_version_target_and_type() {
    let layout = PrefixLayout::new("/opt/crosspack");
    assert_eq!(
        layout.artifact_cache_path("ripgrep", "14.1.0", "x86_64-unknown-linux-gnu", ArchiveType::TarZst),
        "/opt/crosspack/cache/artifacts/ripgrep/14.1.0/x86_64-unknown-linux-gnu/artifact.tar.zst"
    );
    assert_eq!(
        layout.artifact_cache_path("tool", "1.0", "aarch64-apple-darwin", ArchiveType::AppImage),
        "/opt/crosspack/cache/artifacts/tool/1.0/aarch64-apple-darwin/artifact.appimage"
    );
    assert_eq!(ArchiveType::Zip.cache_extension(), "zip");
}

#[test]
fn paths_join_the_way_the_host_joins_them() {
    assert_eq!(join_path_on_host(true, "C:\\Crosspack", "bin"), "C:\\Crosspack\\bin");
    assert_eq!(join_path_on_host(true, "C:\\Crosspack\\", "bin"), "C:\\Crosspack\\bin");
    assert_eq!(join_path_on_host(true, "C:", "bin"), "C:bin");
    assert_eq!(join_path_on_host(true, "C:\\Crosspack", "\\bin"), "C:\\bin");
    assert_eq!(join_path_on_host(true, "C:\\Crosspack", "D:\\x"), "D:\\x");
    assert_eq!(join_path_on_host(false, "/opt/crosspack", "bin"), "/opt/crosspack/bin");
    assert_eq!(join_path_on_host(false, "/opt/crosspack", "/etc"), "/etc");
    let layout = PrefixLayout::new("/opt/crosspack");
    assert!(!layout.joins_as_windows());
    assert_eq!(layout.bin_dir(), "/opt/crosspack/bin");
}
