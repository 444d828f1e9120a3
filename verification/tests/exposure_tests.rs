use std::path::PathBuf;

use crosspack_installer::exposure::{
    bin_path_for, exposed_completion_path, gui_asset_path, normalize_gui_token,
    normalized_extension, normalized_protocol_scheme, parse_gui_exposure_state,
    projected_exposed_completion_path, render_gui_exposure_state, sanitize_desktop_list_token,
    sanitize_gui_metadata_value, validated_relative_binary_path, ExposureError,
};
use crosspack_installer::layout::PrefixLayout;
use crosspack_installer::types::{ArtifactCompletionShell, GuiExposureAsset, HostPlatform};

#[test]
fn projected_completion_path_flattens_components() {
    assert_eq!(
        projected_exposed_completion_path(HostPlatform::Linux, "my pkg", ArtifactCompletionShell::Zsh, "share/zsh/_tool").as_deref(),
        Ok("packages/zsh/my_pkg--share--zsh--_tool")
    );
    assert_eq!(
        projected_exposed_completion_path(HostPlatform::Linux, "pkg", ArtifactCompletionShell::Bash, "./a//b.sh").as_deref(),
        Ok("packages/bash/pkg--a--b.sh")
    );
    assert_eq!(
        projected_exposed_completion_path(HostPlatform::Linux, "pkg", ArtifactCompletionShell::Fish, "/abs"),
        Err(ExposureError::PathAbsolute)
    );
    assert_eq!(
        projected_exposed_completion_path(HostPlatform::Linux, "pkg", ArtifactCompletionShell::Fish, "a/../b"),
        Err(ExposureError::PathHasParent)
    );
    assert_eq!(validated_relative_binary_path(HostPlatform::Linux, ""), Err(ExposureError::PathEmpty));
}

#[test]
fn exposure_paths_live_under_their_directories() {
    let layout = PrefixLayout::new("/prefix");
    assert_eq!(
        PathBuf::from(exposed_completion_path(HostPlatform::Linux, &layout, "packages/zsh/x").unwrap()),
        PathBuf::from("/prefix/share/completions/packages/zsh/x")
    );
    assert_eq!(
        PathBuf::from(gui_asset_path(HostPlatform::Linux, &layout, "launchers/a.desktop").unwrap()),
        PathBuf::from("/prefix/share/gui/launchers/a.desktop")
    );
    assert_eq!(bin_path_for(&layout, "tool", HostPlatform::Windows), "/prefix/bin/tool.cmd");
    assert_eq!(bin_path_for(&layout, "tool", HostPlatform::Linux), "/prefix/bin/tool");
}

#[test]
fn tokens_schemes_and_extensions_are_normalized() {
    assert_eq!(normalize_gui_token("dev.zed/Zed app"), "dev.zed_Zed_app");
    assert_eq!(normalize_gui_token(""), "_");
    assert_eq!(normalized_protocol_scheme("  ZED+X "), Ok("zed+x".to_string()));
    assert_eq!(normalized_protocol_scheme("1zed"), Err(ExposureError::ProtocolSchemeStart));
    assert_eq!(normalized_protocol_scheme("z d"), Err(ExposureError::ProtocolSchemeInvalid));
    assert_eq!(normalized_protocol_scheme("  "), Err(ExposureError::ProtocolSchemeEmpty));
    assert_eq!(normalized_extension("MD"), Ok(".md".to_string()));
    assert_eq!(normalized_extension(".tar-gz"), Ok(".tar-gz".to_string()));
    assert_eq!(normalized_extension("a.b"), Err(ExposureError::ExtensionInvalid));
    assert_eq!(normalized_extension(" "), Err(ExposureError::ExtensionEmpty));
    assert_eq!(sanitize_gui_metadata_value(" a\nb\r "), "a b");
    assert_eq!(sanitize_desktop_list_token(HostPlatform::Linux, " a;b\n"), "a_b_");
    assert_eq!(sanitize_desktop_list_token(HostPlatform::Macos, " a;b\n"), "a;b");
}

#[test]
fn gui_state_round_trips_and_rejects_bad_rows() {
    let assets = vec![
        GuiExposureAsset { key: "app:demo".to_string(), rel_path: "launchers/demo.desktop".to_string() },
        GuiExposureAsset { key: "handler:demo".to_string(), rel_path: "handlers/demo.meta".to_string() },
    ];
    let text = render_gui_exposure_state(&assets).unwrap().unwrap();
    assert_eq!(text, "asset=app:demo\tlaunchers/demo.desktop\nasset=handler:demo\thandlers/demo.meta\n");
    assert_eq!(parse_gui_exposure_state(HostPlatform::Linux, &text), Ok(assets));
    assert_eq!(render_gui_exposure_state(&Vec::new()), Ok(None));
    let bad = vec![GuiExposureAsset { key: "app:demo\tbad".to_string(), rel_path: "x".to_string() }];
    assert_eq!(render_gui_exposure_state(&bad), Err(ExposureError::DelimiterInValue));
    assert_eq!(parse_gui_exposure_state(HostPlatform::Linux, "asset=nokey\n"), Err(ExposureError::GuiStateRow));
    assert_eq!(parse_gui_exposure_state(HostPlatform::Linux, "asset= \tx\n"), Err(ExposureError::GuiKeyEmpty));
    assert_eq!(parse_gui_exposure_state(HostPlatform::Linux, "asset=k\t/abs\n"), Err(ExposureError::PathAbsolute));
    assert_eq!(parse_gui_exposure_state(HostPlatform::Linux, "other=1\n\n"), Ok(Vec::new()));
}

#[test]
fn write_gui_exposure_state_rejects_tab_delimiter_characters() {
    let err = render_gui_exposure_state(&vec![GuiExposureAsset {
        key: "app:demo\tbad".to_string(),
        rel_path: "launchers/demo.command".to_string(),
    }])
    .expect_err("tab-delimited values should be rejected");
    assert!(err.message().contains("must not contain"), "unexpected error: {err:?}");
}

#[test]
fn relative_path_checks_follow_the_host() {
    assert_eq!(validated_relative_binary_path(HostPlatform::Windows, "C:\\x"), Err(ExposureError::PathAbsolute));
    assert_eq!(validated_relative_binary_path(HostPlatform::Windows, "\\\\server\\share\\x"), Err(ExposureError::PathAbsolute));
    assert_eq!(validated_relative_binary_path(HostPlatform::Windows, "..\\x"), Err(ExposureError::PathHasParent));
    assert_eq!(validated_relative_binary_path(HostPlatform::Windows, "bin\\x.exe"), Ok(()));
    assert_eq!(validated_relative_binary_path(HostPlatform::Linux, "..\\x"), Ok(()));
    assert_eq!(validated_relative_binary_path(HostPlatform::Linux, "/x"), Err(ExposureError::PathAbsolute));
}
