use crosspack_installer::receipts::{
    parse_receipt, render_install_receipt, sort_receipts_by_name, ReceiptParseError,
};
use crosspack_installer::types::{InstallMode, InstallReason, InstallReceipt};

#[test]
fn parse_old_receipt_shape() {
    let raw = "name=fd\nversion=10.2.0\ninstalled_at_unix=123\n";
    let receipt = parse_receipt(raw).expect("must parse");
    assert_eq!(receipt.name, "fd");
    assert_eq!(receipt.version, "10.2.0");
    assert!(receipt.dependencies.is_empty());
    assert_eq!(receipt.install_status, "installed");
    assert!(receipt.target.is_none());
    assert!(receipt.snapshot_id.is_none());
    assert!(receipt.exposed_completions.is_empty());
    assert_eq!(receipt.install_reason, InstallReason::Root);
}

#[test]
fn parse_new_receipt_shape() {
    let raw = "name=fd\nversion=10.2.0\ndependency=zlib@2.1.0\ndependency=pcre2@10.44.0\ntarget=x86_64-unknown-linux-gnu\nartifact_url=https://example.test/fd.tgz\nartifact_sha256=abc\ncache_path=/tmp/fd.tgz\nexposed_bin=fd\nexposed_bin=fdfind\nexposed_completion=packages/bash/fd--completions--fd.bash\nsnapshot_id=git:5f1b3d8a1f2a4d0e\ninstall_reason=dependency\ninstall_status=installed\ninstalled_at_unix=123\n";
    let receipt = parse_receipt(raw).expect("must parse");
    assert_eq!(receipt.dependencies, vec!["zlib@2.1.0", "pcre2@10.44.0"]);
    assert_eq!(receipt.target.as_deref(), Some("x86_64-unknown-linux-gnu"));
    assert_eq!(receipt.artifact_sha256.as_deref(), Some("abc"));
    assert_eq!(receipt.exposed_bins, vec!["fd", "fdfind"]);
    assert_eq!(
        receipt.exposed_completions,
        vec!["packages/bash/fd--completions--fd.bash"]
    );
    assert_eq!(receipt.snapshot_id.as_deref(), Some("git:5f1b3d8a1f2a4d0e"));
    assert_eq!(receipt.install_reason, InstallReason::Dependency);
}

#[test]
fn receipt_defaults_install_mode_managed_for_legacy() {
    let raw = "name=fd\nversion=10.2.0\ninstalled_at_unix=123\n";
    let receipt = parse_receipt(raw).expect("must parse");
    assert_eq!(receipt.install_mode, InstallMode::Managed);
}

#[test]
fn receipt_unknown_install_mode_falls_back_to_managed() {
    let raw = "name=fd\nversion=10.2.0\ninstall_mode=native-v2\ninstalled_at_unix=123\n";
    let receipt = parse_receipt(raw).expect("must parse unknown install mode tokens");
    assert_eq!(receipt.install_mode, InstallMode::Managed);
}

fn sample_receipt() -> InstallReceipt {
    InstallReceipt {
        name: "zed".to_string(),
        version: "0.150.0".to_string(),
        dependencies: vec!["ripgrep@14.0.0".to_string(), "fd@10.2.0".to_string()],
        target: Some("x86_64-unknown-linux-gnu".to_string()),
        artifact_url: Some("https://example.test/zed.tar.zst?x=y".to_string()),
        artifact_sha256: Some("abc123".to_string()),
        cache_path: Some("/tmp/zed.tar.zst".to_string()),
        exposed_bins: vec!["zed".to_string()],
        exposed_completions: Vec::new(),
        snapshot_id: Some("git:deadbeef".to_string()),
        install_mode: InstallMode::Native,
        install_reason: InstallReason::Root,
        install_status: "installed".to_string(),
        installed_at_unix: 18446744073709551615,
    }
}

#[test]
fn receipt_round_trip_with_install_mode_native_text() {
    let receipt = sample_receipt();
    let text = render_install_receipt(&receipt);
    assert_eq!(
        text,
        "name=zed\nversion=0.150.0\ndependency=ripgrep@14.0.0\ndependency=fd@10.2.0\ntarget=x86_64-unknown-linux-gnu\nartifact_url=https://example.test/zed.tar.zst?x=y\nartifact_sha256=abc123\ncache_path=/tmp/zed.tar.zst\nexposed_bin=zed\nsnapshot_id=git:deadbeef\ninstall_mode=native\ninstall_reason=root\ninstall_status=installed\ninstalled_at_unix=18446744073709551615\n"
    );
    assert_eq!(parse_receipt(&text).expect("must parse rendered receipt"), receipt);
}

#[test]
fn receipt_parse_errors_are_reason_coded() {
    assert_eq!(
        parse_receipt("version=1\ninstalled_at_unix=1\n"),
        Err(ReceiptParseError::MissingName)
    );
    assert_eq!(
        parse_receipt("name=a\ninstalled_at_unix=1\n"),
        Err(ReceiptParseError::MissingVersion)
    );
    assert_eq!(
        parse_receipt("name=a\nversion=1\n"),
        Err(ReceiptParseError::MissingInstalledAt)
    );
    assert_eq!(
        parse_receipt("name=a\nversion=1\ninstalled_at_unix=18446744073709551616\n"),
        Err(ReceiptParseError::InvalidInstalledAt)
    );
    assert_eq!(
        parse_receipt("install_reason=optional\nname=a\n"),
        Err(ReceiptParseError::InvalidInstallReason)
    );
    let lenient = parse_receipt("  name=a b \n\r\nnoise\nversion=+7\ninstalled_at_unix=+42\r\n")
        .expect("padded rows parse");
    assert_eq!(lenient.version, "+7");
    assert_eq!(lenient.installed_at_unix, 42);
    assert_eq!(lenient.name, "a b");
    assert_eq!(
        parse_receipt("name =a\nversion=1\ninstalled_at_unix=1\n"),
        Err(ReceiptParseError::MissingName)
    );
    assert_eq!(ReceiptParseError::MissingName.message(), "missing name");
}

#[test]
fn receipts_are_listed_by_name() {
    let named = |name: &str, version: &str| {
        let mut r = sample_receipt();
        r.name = name.to_string();
        r.version = version.to_string();
        r
    };
    let sorted = sort_receipts_by_name(vec![
        named("zed", "1"),
        named("alpha", "1"),
        named("demo", "1"),
        named("alpha", "2"),
    ]);
    let listed: Vec<(&str, &str)> =
        sorted.iter().map(|r| (r.name.as_str(), r.version.as_str())).collect();
    assert_eq!(listed, vec![("alpha", "1"), ("alpha", "2"), ("demo", "1"), ("zed", "1")]);
}
