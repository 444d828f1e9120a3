use crosspack_installer::gui_app::{ArtifactGuiApp, ArtifactGuiFileAssociation, ArtifactGuiProtocol};
use crosspack_installer::native_gui::{
    finish_native_registration, step_stops, FailurePolicy, NativeOp, NativeRegistrationPlan,
};
use crosspack_installer::native_macos::{
    macos_placement_next, macos_previous_records_include_path,
    register_macos_native_gui_registration, MacosDestination, MacosPlacementStep,
    MacosHostOperations, RecordingMacosHost,
};
use crosspack_installer::native_registration::{
    gui_app_source_path, plan_native_gui_registration, NativeGuiError, NativeRegistration,
};
use crosspack_installer::exposure::ExposureError;
use crosspack_installer::types::{GuiExposureAsset, GuiNativeRegistrationRecord, HostPlatform};

fn zed_app() -> ArtifactGuiApp {
    ArtifactGuiApp {
        app_id: "dev.zed.Zed".to_string(),
        display_name: " Zed ".to_string(),
        executable: "zed".to_string(),
        icon: None,
        categories: vec!["Development".to_string()],
        file_associations: vec![ArtifactGuiFileAssociation {
            mime_type: "Text/Plain".to_string(),
            extensions: vec!["TXT".to_string()],
        }],
        protocols: vec![ArtifactGuiProtocol { scheme: "zed".to_string() }],
    }
}

fn plan_steps(r: NativeRegistration) -> NativeRegistrationPlan {
    match r {
        NativeRegistration::Steps(p) => p,
        NativeRegistration::Macos { .. } => panic!("expected steps"),
    }
}

#[test]
fn gui_source_path_joins_the_executable() {
    assert_eq!(gui_app_source_path(HostPlatform::Linux, "/root/zed", &zed_app()), Ok("/root/zed/zed".to_string()));
    let mut app = zed_app();
    app.executable = "/usr/bin/zed".to_string();
    assert_eq!(
        gui_app_source_path(HostPlatform::Linux, "/root/zed", &app),
        Err(NativeGuiError::ExecPathInvalid(ExposureError::PathAbsolute))
    );
}

#[test]
fn linux_registration_writes_desktop_entry_and_records_every_asset() {
    let plan = plan_steps(
        plan_native_gui_registration(
            HostPlatform::Linux,
            Some("/home/u"),
            None,
            "zed",
            &zed_app(),
            "/root/zed",
            "/root/zed/zed",
        )
        .expect("must plan"),
    );
    assert_eq!(plan.steps.len(), 3);
    assert_eq!(
        plan.steps[0].op,
        NativeOp::CreateDirAll { path: "/home/u/.local/share/applications".to_string() }
    );
    match &plan.steps[1].op {
        NativeOp::WriteFile { path, contents } => {
            assert_eq!(path, "/home/u/.local/share/applications/zed--dev.zed.Zed.desktop");
            assert!(contents.contains("Exec=\"/root/zed/zed\" %U\n"));
        }
        other => panic!("unexpected step {other:?}"),
    }
    assert_eq!(
        plan.steps[2].op,
        NativeOp::RunCommand {
            program: "update-desktop-database".to_string(),
            args: vec!["/home/u/.local/share/applications".to_string()],
            context: "failed to refresh Linux desktop entry database".to_string(),
        }
    );
    assert_eq!(plan.records.len(), 5);
    assert!(plan.records.iter().all(|r| r.kind == "desktop-entry"
        && r.path == "/home/u/.local/share/applications/zed--dev.zed.Zed.desktop"));
    assert!(plan.warnings.is_empty());
}

#[test]
fn registration_without_home_only_warns() {
    let plan = plan_steps(
        plan_native_gui_registration(HostPlatform::Linux, None, None, "zed", &zed_app(), "/r", "/r/zed")
            .expect("must plan"),
    );
    assert!(plan.steps.is_empty());
    assert!(plan.records.is_empty());
    assert_eq!(
        plan.warnings,
        vec!["native GUI registration warning: HOME is not set; skipped Linux desktop registration".to_string()]
    );
    let plan = plan_steps(
        plan_native_gui_registration(HostPlatform::Windows, None, None, "zed", &zed_app(), "/r", "/r/zed")
            .expect("must plan"),
    );
    assert_eq!(
        plan.warnings,
        vec!["native GUI registration warning: APPDATA is not set; skipped Windows GUI registration".to_string()]
    );
}

#[test]
fn windows_registration_plans_launcher_and_registry_classes() {
    let plan = plan_steps(
        plan_native_gui_registration(
            HostPlatform::Windows,
            None,
            Some("C:/Users/u/AppData/Roaming"),
            "zed",
            &zed_app(),
            "C:/zed",
            "C:/zed/zed",
        )
        .expect("must plan"),
    );
    // dir, launcher, three protocol commands, two extension commands
    assert_eq!(plan.steps.len(), 7);
    let launcher = "C:/Users/u/AppData/Roaming/Microsoft/Windows/Start Menu/Programs/zed-dev.zed.Zed.cmd";
    match &plan.steps[1].op {
        NativeOp::WriteFile { path, contents } => {
            assert_eq!(path, launcher);
            assert_eq!(contents, "@echo off\r\nREM Zed\r\n\"C:/zed/zed\" %*\r\n");
        }
        other => panic!("unexpected step {other:?}"),
    }
    assert_eq!(
        plan.steps[2].op,
        NativeOp::RunCommand {
            program: "reg".to_string(),
            args: vec![
                "add".to_string(),
                "HKCU\\Software\\Classes\\zed".to_string(),
                "/ve".to_string(),
                "/d".to_string(),
                "URL:Zed".to_string(),
                "/f".to_string(),
            ],
            context: "failed to register Windows protocol class".to_string(),
        }
    );
    assert_eq!(plan.steps[2].on_failure, FailurePolicy::Continue);
    let class_key = "HKCU\\Software\\Classes\\Crosspack.zed.dev.zed.Zed.file";
    assert_eq!(
        plan.records,
        vec![
            GuiNativeRegistrationRecord {
                key: "app:dev.zed.zed".to_string(),
                kind: "start-menu-launcher".to_string(),
                path: launcher.to_string(),
            },
            GuiNativeRegistrationRecord {
                key: "protocol:zed".to_string(),
                kind: "registry-key".to_string(),
                path: "HKCU\\Software\\Classes\\zed".to_string(),
            },
            GuiNativeRegistrationRecord {
                key: "extension:.txt".to_string(),
                kind: "registry-key".to_string(),
                path: "HKCU\\Software\\Classes\\.txt".to_string(),
            },
            GuiNativeRegistrationRecord {
                key: "mime:text/plain".to_string(),
                kind: "registry-key".to_string(),
                path: class_key.to_string(),
            },
        ]
    );
}

#[test]
fn registration_outcome_keeps_records_unless_a_stopping_step_fails() {
    let plan = plan_steps(
        plan_native_gui_registration(
            HostPlatform::Linux,
            Some("/home/u"),
            None,
            "zed",
            &zed_app(),
            "/root/zed",
            "/root/zed/zed",
        )
        .expect("must plan"),
    );
    let (records, warnings) =
        finish_native_registration(&plan, &vec![None, None, Some("simulated command failure".to_string())]);
    assert_eq!(records.len(), 5);
    assert_eq!(warnings, vec!["native GUI registration warning: simulated command failure".to_string()]);

    assert!(step_stops(&plan.steps[1], true));
    assert!(!step_stops(&plan.steps[2], true));
    let (records, warnings) = finish_native_registration(&plan, &vec![None, Some("disk full".to_string())]);
    assert!(records.is_empty());
    assert_eq!(
        warnings,
        vec![
            "native GUI registration warning: failed to write Linux desktop entry /home/u/.local/share/applications/zed--dev.zed.Zed.desktop: disk full"
                .to_string()
        ]
    );
}

#[test]
fn macos_registration_targets_bundle_and_candidates() {
    let mut app = zed_app();
    app.executable = "Zed.app/Contents/MacOS/zed".to_string();
    let r = plan_native_gui_registration(
        HostPlatform::Macos,
        Some("/Users/u"),
        None,
        "zed",
        &app,
        "/p/pkgs/zed",
        "/p/pkgs/zed/Zed.app/Contents/MacOS/zed",
    )
    .expect("must plan");
    match r {
        NativeRegistration::Macos { source, system, user, assets } => {
            assert_eq!(source, "/p/pkgs/zed/Zed.app");
            assert_eq!(system.path, "/Applications/Zed.app");
            assert_eq!(system.applications_dir, "/Applications");
            assert_eq!(user.path, "/Users/u/Applications/Zed.app");
            assert_eq!(user.applications_dir, "/Users/u/Applications");
            assert_eq!(assets.len(), 5);
        }
        NativeRegistration::Steps(_) => panic!("expected a macOS registration"),
    }
}

/// A host whose system applications directory cannot be written.
struct FakeMacHost {
    existing: Vec<String>,
    fail_dir: Option<String>,
    commands: Vec<(String, Vec<String>)>,
    links: Vec<(String, String)>,
}

impl MacosHostOperations for FakeMacHost {
    fn create_dir_all(&mut self, path: &str) -> Result<(), String> {
        if self.fail_dir.as_deref() == Some(path) {
            Err("permission denied".to_string())
        } else {
            Ok(())
        }
    }
    fn path_exists(&mut self, path: &str) -> bool {
        self.existing.iter().any(|p| p == path)
    }
    fn is_dir(&mut self, path: &str) -> bool {
        self.existing.iter().any(|p| p == path)
    }
    fn entry_is_dir(&mut self, _path: &str) -> Result<bool, String> {
        Ok(false)
    }
    fn remove_dir(&mut self, _path: &str) -> Result<(), String> {
        Ok(())
    }
    fn remove_dir_all(&mut self, _path: &str) -> Result<(), String> {
        Ok(())
    }
    fn remove_file(&mut self, _path: &str) -> Result<(), String> {
        Ok(())
    }
    fn create_symlink(&mut self, source: &str, link: &str) -> Result<(), String> {
        self.links.push((source.to_string(), link.to_string()));
        Ok(())
    }
    fn copy_dir_recursive(&mut self, source: &str, destination: &str) -> Result<(), String> {
        self.links.push((source.to_string(), destination.to_string()));
        Ok(())
    }
    fn run_command(&mut self, program: &str, args: &Vec<String>, _context: &str) -> Result<(), String> {
        self.commands.push((program.to_string(), args.clone()));
        Err("lsregister missing".to_string())
    }
}

fn destinations() -> (MacosDestination, MacosDestination) {
    (
        MacosDestination {
            applications_dir: "/Applications".to_string(),
            path: "/Applications/zed".to_string(),
        },
        MacosDestination {
            applications_dir: "/Users/u/Applications".to_string(),
            path: "/Users/u/Applications/zed".to_string(),
        },
    )
}

#[test]
fn macos_registration_falls_back_to_user_applications() {
    let (system, user) = destinations();
    let mut host = RecordingMacosHost::new(FakeMacHost {
        existing: Vec::new(),
        fail_dir: Some("/Applications".to_string()),
        commands: Vec::new(),
        links: Vec::new(),
    });
    let assets = vec![GuiExposureAsset { key: "app:zed".to_string(), rel_path: "launchers/zed".to_string() }];
    let (records, warnings) =
        register_macos_native_gui_registration(&mut host, &assets, "/p/zed", &system, &user, &Vec::new());
    assert_eq!(
        records,
        vec![GuiNativeRegistrationRecord {
            key: "app:zed".to_string(),
            kind: "applications-symlink".to_string(),
            path: "/Users/u/Applications/zed".to_string(),
        }]
    );
    assert_eq!(host.inner.links, vec![("/p/zed".to_string(), "/Users/u/Applications/zed".to_string())]);
    assert_eq!(
        warnings,
        vec![
            "native GUI registration warning: failed to prepare macOS applications dir /Applications: permission denied".to_string(),
            "native GUI registration warning: lsregister missing".to_string(),
        ]
    );
    assert_eq!(host.inner.commands[0].1, vec!["-f".to_string(), "/Users/u/Applications/zed".to_string()]);
}

#[test]
fn macos_registration_refuses_unmanaged_bundles() {
    let (system, user) = destinations();
    let mut host = RecordingMacosHost::new(FakeMacHost {
        existing: vec!["/Applications/zed".to_string(), "/Users/u/Applications/zed".to_string()],
        fail_dir: None,
        commands: Vec::new(),
        links: Vec::new(),
    });
    let assets = vec![GuiExposureAsset { key: "app:zed".to_string(), rel_path: "launchers/zed".to_string() }];
    let (records, warnings) =
        register_macos_native_gui_registration(&mut host, &assets, "/p/zed", &system, &user, &Vec::new());
    assert!(records.is_empty());
    assert_eq!(warnings.len(), 2);
    assert!(warnings[0].contains("refusing to overwrite unmanaged macOS app bundle /Applications/zed"));

    let previous = vec![GuiNativeRegistrationRecord {
        key: "app:zed".to_string(),
        kind: "applications-symlink".to_string(),
        path: "/Applications/zed".to_string(),
    }];
    assert!(macos_previous_records_include_path(&previous, "/Applications/zed"));
    assert!(!macos_previous_records_include_path(&previous, "/Users/u/Applications/zed"));
    let (records, _warnings) =
        register_macos_native_gui_registration(&mut host, &assets, "/p/zed", &system, &user, &previous);
    assert_eq!(records[0].path, "/Applications/zed");
}

#[test]
fn macos_placement_falls_back_from_system_to_user_location() {
    assert_eq!(macos_placement_next(MacosPlacementStep::PrepareSystem, true, false), MacosPlacementStep::WriteSystem);
    assert_eq!(macos_placement_next(MacosPlacementStep::PrepareSystem, false, false), MacosPlacementStep::PrepareUser);
    assert_eq!(macos_placement_next(MacosPlacementStep::WriteSystem, true, false), MacosPlacementStep::PlacedSystem);
    assert_eq!(macos_placement_next(MacosPlacementStep::WriteSystem, false, false), MacosPlacementStep::PrepareUser);
    assert_eq!(macos_placement_next(MacosPlacementStep::WriteSystem, false, true), MacosPlacementStep::NotPlaced);
    assert_eq!(macos_placement_next(MacosPlacementStep::PrepareUser, true, false), MacosPlacementStep::WriteUser);
    assert_eq!(macos_placement_next(MacosPlacementStep::PrepareUser, false, false), MacosPlacementStep::NotPlaced);
    assert_eq!(macos_placement_next(MacosPlacementStep::WriteUser, true, false), MacosPlacementStep::PlacedUser);
    assert_eq!(macos_placement_next(MacosPlacementStep::WriteUser, false, false), MacosPlacementStep::NotPlaced);
    assert_eq!(macos_placement_next(MacosPlacementStep::PlacedUser, false, false), MacosPlacementStep::PlacedUser);
}
