use crosspack_installer::native_removal::{
    deregistration_warnings, native_state_follow_up, native_uninstall_failure_context,
    native_uninstall_removal, plan_native_gui_deregistration, DeregistrationStep, NativeRemoval,
    NativeStateFollowUp, NativeUninstallError,
};
use crosspack_installer::types::{GuiNativeRegistrationRecord, HostPlatform, NativeUninstallAction};

fn record(key: &str, kind: &str, path: &str) -> GuiNativeRegistrationRecord {
    GuiNativeRegistrationRecord { key: key.to_string(), kind: kind.to_string(), path: path.to_string() }
}

fn action(kind: &str, path: &str) -> NativeUninstallAction {
    NativeUninstallAction { key: "app:demo".to_string(), kind: kind.to_string(), path: path.to_string() }
}

#[test]
fn uninstall_actions_map_to_removals() {
    assert_eq!(
        native_uninstall_removal(&action("desktop-entry", "/a"), HostPlatform::Linux),
        Ok(NativeRemoval::Path { path: "/a".to_string() })
    );
    assert_eq!(
        native_uninstall_removal(&action("applications-symlink", "/b"), HostPlatform::Macos),
        Ok(NativeRemoval::ApplicationsSymlink { path: "/b".to_string() })
    );
    assert_eq!(
        native_uninstall_removal(&action("applications-bundle-copy", "/c"), HostPlatform::Macos),
        Ok(NativeRemoval::Tree { path: "/c".to_string() })
    );
    assert_eq!(
        native_uninstall_removal(&action("registry-key", "HKCU\\x"), HostPlatform::Windows),
        Ok(NativeRemoval::RegistryKey { path: "HKCU\\x".to_string() })
    );
    let err = native_uninstall_removal(&action("registry-key", "HKCU\\x"), HostPlatform::Linux)
        .expect_err("registry keys need Windows");
    assert_eq!(
        err.message(),
        "native uninstall action kind 'registry-key' is supported only on Windows hosts"
    );
    let err = native_uninstall_removal(&action("bogus", "/d"), HostPlatform::Linux).expect_err("unknown kind");
    assert_eq!(err, NativeUninstallError::UnsupportedKind { kind: "bogus".to_string() });
    assert_eq!(err.message(), "unsupported native uninstall action kind 'bogus'");
    assert_eq!(
        native_uninstall_failure_context(&action("desktop-entry", "/a")),
        "native uninstall action failed (key='app:demo', kind='desktop-entry', path='/a')"
    );
}

#[test]
fn deregistration_removes_each_path_once_and_warns_about_the_rest() {
    let records = vec![
        record("app:demo", "desktop-entry", "/apps/demo.desktop"),
        record("protocol:demo", "desktop-entry", "/apps/demo.desktop"),
        record("protocol:demo", "registry-key", "HKCU\\Software\\Classes\\demo"),
        record("app:demo", "unknown-kind", "/tmp/demo"),
    ];
    let steps = plan_native_gui_deregistration(&records, HostPlatform::Linux);
    assert_eq!(
        steps,
        vec![
            DeregistrationStep::Remove(NativeRemoval::Path { path: "/apps/demo.desktop".to_string() }),
            DeregistrationStep::Warn(
                "native GUI deregistration warning: skipped Windows registry cleanup 'HKCU\\Software\\Classes\\demo' on non-Windows host"
                    .to_string()
            ),
            DeregistrationStep::Warn(
                "native GUI deregistration warning: unsupported registration kind 'unknown-kind' for key 'app:demo'"
                    .to_string()
            ),
        ]
    );
    let windows = plan_native_gui_deregistration(&records, HostPlatform::Windows);
    assert_eq!(
        windows[1],
        DeregistrationStep::DeleteRegistryKey { path: "HKCU\\Software\\Classes\\demo".to_string() }
    );
}

#[test]
fn deregistration_warnings_report_failures() {
    let steps = vec![
        DeregistrationStep::Remove(NativeRemoval::Path { path: "/a".to_string() }),
        DeregistrationStep::DeleteRegistryKey { path: "HKCU\\x".to_string() },
        DeregistrationStep::Warn("native GUI deregistration warning: w".to_string()),
    ];
    let warnings = deregistration_warnings(
        &steps,
        &vec![Some("busy".to_string()), Some("reg failed".to_string()), None],
    );
    assert_eq!(
        warnings,
        vec![
            "native GUI deregistration warning: failed to remove '/a': busy".to_string(),
            "native GUI deregistration warning: reg failed".to_string(),
            "native GUI deregistration warning: w".to_string(),
        ]
    );
    assert!(deregistration_warnings(&steps[..1].to_vec(), &vec![None]).is_empty());
}

#[test]
fn native_state_is_kept_when_cleanup_warns() {
    let records = vec![record("app:demo", "unknown-kind", "/tmp/demo")];
    let steps = plan_native_gui_deregistration(&records, HostPlatform::Linux);
    let outcomes = vec![None; steps.len()];
    let warnings = deregistration_warnings(&steps, &outcomes);
    assert!(!warnings.is_empty());
    assert_eq!(native_state_follow_up(&warnings), NativeStateFollowUp::Rewrite);
    assert_eq!(native_state_follow_up(&Vec::new()), NativeStateFollowUp::Clear);
}

#[test]
fn deregistration_compares_paths_component_by_component() {
    let records = vec![
        record("app:demo", "desktop-entry", "/apps/demo.desktop"),
        record("protocol:demo", "desktop-entry", "/apps//./demo.desktop/"),
        record("app:other", "desktop-entry", "/apps/other.desktop"),
    ];
    let steps = plan_native_gui_deregistration(&records, HostPlatform::Linux);
    assert_eq!(
        steps,
        vec![
            DeregistrationStep::Remove(NativeRemoval::Path { path: "/apps/demo.desktop".to_string() }),
            DeregistrationStep::Remove(NativeRemoval::Path { path: "/apps/other.desktop".to_string() }),
        ]
    );
    let windows = vec![
        record("app:demo", "start-menu-launcher", "C:\\Start\\demo.lnk"),
        record("protocol:demo", "start-menu-launcher", "C:/Start/demo.lnk"),
    ];
    let steps = plan_native_gui_deregistration(&windows, HostPlatform::Windows);
    assert_eq!(
        steps,
        vec![DeregistrationStep::Remove(NativeRemoval::Path { path: "C:\\Start\\demo.lnk".to_string() })]
    );
}
