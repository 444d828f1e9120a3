use std::path::PathBuf;

use crosspack_installer::native::{
    gui_records_from_sidecar, macos_registration_destination_candidates,
    parse_native_sidecar_state, project_linux_user_applications_dir,
    project_macos_user_applications_dir, project_windows_start_menu_programs_dir,
    render_native_sidecar_state, sidecar_from_gui_records, NativeSidecarError,
};
use crosspack_installer::types::{
    GuiNativeRegistrationRecord, NativeSidecarState, NativeUninstallAction,
};

#[test]
fn native_sidecar_legacy_record_rows_are_still_read() {
    let raw = "version=1\nrecord=app:dev.zed.zed\tdesktop-entry\t/tmp/dev.zed.zed.desktop\nrecord=protocol:zed\tregistry-key\tHKCU\\Software\\Classes\\zed\n";
    let state = parse_native_sidecar_state(raw).expect("must parse legacy record rows");

    assert_eq!(
        state.uninstall_actions,
        vec![
            NativeUninstallAction {
                key: "app:dev.zed.zed".to_string(),
                kind: "desktop-entry".to_string(),
                path: "/tmp/dev.zed.zed.desktop".to_string(),
            },
            NativeUninstallAction {
                key: "protocol:zed".to_string(),
                kind: "registry-key".to_string(),
                path: "HKCU\\Software\\Classes\\zed".to_string(),
            },
        ]
    );
}

#[test]
fn native_sidecar_unsupported_version_rejects() {
    let raw =
        "version=42\nuninstall_action=app:dev.zed.zed\tdesktop-entry\t/tmp/dev.zed.zed.desktop\n";
    let err = parse_native_sidecar_state(raw).expect_err("unsupported version must fail");
    assert!(
        err.message()
            .contains("unsupported native sidecar version: 42"),
        "unexpected error: {}",
        err.message()
    );
}

#[test]
fn native_sidecar_malformed_uninstall_action_row_rejects() {
    let raw = "version=1\nuninstall_action=app:dev.zed.zed\tdesktop-entry\n";
    let err = parse_native_sidecar_state(raw)
        .expect_err("malformed uninstall_action row should fail parsing");
    assert!(
        err.message()
            .contains("invalid native uninstall action row format"),
        "unexpected error: {}",
        err.message()
    );
}

#[test]
fn native_sidecar_malformed_line_without_equals_rejects() {
    let raw =
        "version=1\nuninstall_action\tapp:dev.zed.zed\tdesktop-entry\t/tmp/dev.zed.zed.desktop\n";
    let err = parse_native_sidecar_state(raw)
        .expect_err("suspicious malformed sidecar line should fail parsing");
    assert!(
        err.message()
            .contains("invalid native sidecar row format"),
        "unexpected error: {}",
        err.message()
    );
}

#[test]
fn register_native_gui_linux_projects_user_desktop_path() {
    let home = "/home/tester";
    assert_eq!(
        PathBuf::from(project_linux_user_applications_dir(home)),
        PathBuf::from("/home/tester/.local/share/applications")
    );
}

#[test]
fn register_native_gui_windows_projects_start_menu_path() {
    let appdata = r"C:\Users\tester\AppData\Roaming";
    assert_eq!(
        PathBuf::from(project_windows_start_menu_programs_dir(appdata)),
        PathBuf::from(r"C:\Users\tester\AppData\Roaming")
            .join("Microsoft")
            .join("Windows")
            .join("Start Menu")
            .join("Programs")
    );
}

#[test]
fn register_native_gui_macos_projects_user_applications_path() {
    let home = "/Users/tester";
    assert_eq!(
        PathBuf::from(project_macos_user_applications_dir(home)),
        PathBuf::from("/Users/tester/Applications")
    );
}

#[test]
fn macos_registration_destination_candidates_prioritize_system_then_user() {
    let candidates = macos_registration_destination_candidates("/Users/tester", "Demo.app");
    assert_eq!(
        [PathBuf::from(&candidates[0]), PathBuf::from(&candidates[1])],
        [
            PathBuf::from("/Applications/Demo.app"),
            PathBuf::from("/Users/tester/Applications/Demo.app"),
        ]
    );
}

#[test]
fn native_sidecar_round_trip_preserves_actions() {
    let state = NativeSidecarState {
        uninstall_actions: vec![
            NativeUninstallAction {
                key: "app:demo".to_string(),
                kind: "desktop-entry".to_string(),
                path: "/tmp/demo.desktop".to_string(),
            },
            NativeUninstallAction {
                key: "protocol:demo".to_string(),
                kind: "registry-key".to_string(),
                path: "HKCU\\Software\\Classes\\demo".to_string(),
            },
        ],
    };
    let text = render_native_sidecar_state(&state)
        .expect("must render")
        .expect("non-empty state must render text");
    assert_eq!(
        text,
        "version=1\nuninstall_action=app:demo\tdesktop-entry\t/tmp/demo.desktop\nuninstall_action=protocol:demo\tregistry-key\tHKCU\\Software\\Classes\\demo\n"
    );
    let parsed = parse_native_sidecar_state(&text).expect("must parse rendered text");
    assert_eq!(parsed, state);
}

#[test]
fn native_sidecar_empty_state_renders_nothing() {
    let state = NativeSidecarState { uninstall_actions: Vec::new() };
    assert_eq!(render_native_sidecar_state(&state), Ok(None));
}

#[test]
fn native_sidecar_render_rejects_delimiters() {
    let state = NativeSidecarState {
        uninstall_actions: vec![NativeUninstallAction {
            key: "app:demo\tbad".to_string(),
            kind: "desktop-entry".to_string(),
            path: "/tmp/demo.desktop".to_string(),
        }],
    };
    assert_eq!(
        render_native_sidecar_state(&state),
        Err(NativeSidecarError::DelimiterInValue)
    );
}

#[test]
fn native_sidecar_error_variants() {
    assert_eq!(
        parse_native_sidecar_state("=1\n"),
        Err(NativeSidecarError::EmptyRowKey)
    );
    assert_eq!(
        parse_native_sidecar_state("version=abc\n"),
        Err(NativeSidecarError::InvalidVersion)
    );
    assert_eq!(
        parse_native_sidecar_state("version=4294967296\n"),
        Err(NativeSidecarError::InvalidVersion)
    );
    assert_eq!(
        parse_native_sidecar_state("uninstall_action= \tkind\tpath\n"),
        Err(NativeSidecarError::EmptyActionKey)
    );
    assert_eq!(
        parse_native_sidecar_state("uninstall_action=key\t \tpath\n"),
        Err(NativeSidecarError::EmptyActionKind)
    );
    // The row is trimmed before it is split, so a blank trailing path
    // leaves only two fields.
    assert_eq!(
        parse_native_sidecar_state("uninstall_action=key\tkind\t \n"),
        Err(NativeSidecarError::InvalidActionRow)
    );
    assert_eq!(
        parse_native_sidecar_state("unrelated=value\n\n"),
        Ok(NativeSidecarState { uninstall_actions: Vec::new() })
    );
}

#[test]
fn native_gui_records_convert_to_and_from_sidecar() {
    let records = vec![
        GuiNativeRegistrationRecord {
            key: "app:demo".to_string(),
            kind: "desktop-entry".to_string(),
            path: "/tmp/demo.desktop".to_string(),
        },
        GuiNativeRegistrationRecord {
            key: "protocol:demo".to_string(),
            kind: "registry-key".to_string(),
            path: "HKCU\\Software\\Classes\\demo".to_string(),
        },
    ];
    let state = sidecar_from_gui_records(&records);
    assert_eq!(state.uninstall_actions.len(), 2);
    assert_eq!(state.uninstall_actions[1].key, "protocol:demo");
    assert_eq!(gui_records_from_sidecar(state), records);
}

#[test]
fn macos_registration_source_prefers_app_bundle_root() {
    let install_root = "/Users/tester/.crosspack/pkgs/neovide/0.15.2";
    let source_path = PathBuf::from(install_root).join("Neovide.app/Contents/MacOS/neovide");
    assert_eq!(
        PathBuf::from(crosspack_installer::native::macos_registration_source_path(
            install_root,
            source_path.to_str().unwrap()
        )),
        PathBuf::from(install_root).join("Neovide.app")
    );
}

#[test]
fn macos_registration_source_falls_back_to_binary_path_when_no_bundle() {
    let install_root = "/Users/tester/.crosspack/pkgs/demo/1.0.0";
    let source_path = PathBuf::from(install_root).join("demo");
    assert_eq!(
        PathBuf::from(crosspack_installer::native::macos_registration_source_path(
            install_root,
            source_path.to_str().unwrap()
        )),
        source_path
    );
}

#[test]
fn macos_registration_source_keeps_paths_outside_the_root() {
    assert_eq!(
        crosspack_installer::native::macos_registration_source_path(
            "/Users/tester/pkgs/demo",
            "/Applications/Other.app/Contents/MacOS/other"
        ),
        "/Applications/Other.app/Contents/MacOS/other"
    );
    assert_eq!(
        crosspack_installer::native::macos_registration_source_path(
            "/root",
            "/root/./nested/Tool.APP/Contents/MacOS/tool"
        ),
        "/root/nested/Tool.APP"
    );
    assert_eq!(
        crosspack_installer::native::macos_registration_source_path("/root", "/root/.app/x"),
        "/root/.app/x"
    );
}

#[test]
fn native_gui_state_round_trip() {
    let records = vec![
        GuiNativeRegistrationRecord {
            key: "app:dev.zed.zed".to_string(),
            kind: "desktop-entry".to_string(),
            path: "/tmp/dev.zed.zed.desktop".to_string(),
        },
        GuiNativeRegistrationRecord {
            key: "protocol:zed".to_string(),
            kind: "protocol-handler".to_string(),
            path: "HKCU\\Software\\Classes\\zed".to_string(),
        },
    ];

    let text = render_native_sidecar_state(&sidecar_from_gui_records(&records))
        .expect("must write native gui state")
        .expect("records must render text");
    let loaded = gui_records_from_sidecar(
        parse_native_sidecar_state(&text).expect("must read native gui state"),
    );
    assert_eq!(loaded, records);
}

#[test]
fn native_state_round_trip_for_uninstall_actions() {
    let state = NativeSidecarState {
        uninstall_actions: vec![
            NativeUninstallAction {
                key: "app:dev.zed.zed".to_string(),
                kind: "desktop-entry".to_string(),
                path: "/tmp/dev.zed.zed.desktop".to_string(),
            },
            NativeUninstallAction {
                key: "protocol:zed".to_string(),
                kind: "registry-key".to_string(),
                path: "HKCU\\Software\\Classes\\zed".to_string(),
            },
        ],
    };

    let text = render_native_sidecar_state(&state)
        .expect("must write native uninstall sidecar state")
        .expect("actions must render text");
    let loaded = parse_native_sidecar_state(&text).expect("must read native sidecar state");
    assert_eq!(loaded, state);
}
