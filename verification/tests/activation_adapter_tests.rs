use crosspack_installer::activation_adapters::{
    apply_docker_cli_plugin_plan, apply_integration_plan_with_fs, apply_path_plugin_plan,
    destination_is_under_source_prefix, disable_docker_cli_plugin_plan,
    disable_integration_plan_with_fs, disable_path_plugin_plan, link_apply_outcome,
    link_disable_outcome, replay_activation_rollback_entry_with_fs, replay_outcome, ActivationRollbackEntry,
    ActivationRollbackOperation,
};
use crosspack_installer::activation_fs::{ActivationFilesystem, ActivationFsEntry, ActivationOwner};
use crosspack_installer::memory_fs::{parent_path, MemoryActivationFs};
use crosspack_installer::real_fs::{
    parse_crosspack_windows_shim, real_activation_fs_from_records, windows_shim_contents,
    RealActivationFs,
};
use crosspack_installer::service_adapters::{
    apply_service_plan, apply_service_plan_with_fs, disable_service_plan, parse_service_status,
    run_service_action_plan, status_service_plan, NativeCommandRunner, RecordingExecutor,
    NativeCommandResult,
};
use crosspack_installer::types::{
    HostPlatform, IntegrationActivationPlan, IntegrationActivationRecord,
    IntegrationActivationScope, IntegrationAdapterKind, IntegrationAppliedState,
    IntegrationDesiredState, IntegrationReasonCode, NativeServiceAction,
};

fn docker_adapter_plan(
    platform: HostPlatform,
    host_path: &str,
    source_path: &str,
) -> IntegrationActivationPlan {
    let package = match platform {
        HostPlatform::Windows => "docker-compose.exe",
        HostPlatform::Linux | HostPlatform::Macos => "docker-compose",
    };
    IntegrationActivationPlan {
        package_state_key: "default--host--core--docker-compose".to_string(),
        package: package.to_string(),
        integration_key: "docker_cli_plugin:compose".to_string(),
        kind: "docker_cli_plugin".to_string(),
        adapter: IntegrationAdapterKind::DockerCli,
        scope: IntegrationActivationScope::Unscoped,
        desired_state: IntegrationDesiredState::Enabled,
        host_path: host_path.to_string(),
        source_path: source_path.to_string(),
    }
}

fn path_plugin_adapter_plan(
    platform: HostPlatform,
    host_path: &str,
    source_path: &str,
) -> IntegrationActivationPlan {
    let package = match platform {
        HostPlatform::Windows => "demo.exe",
        HostPlatform::Linux | HostPlatform::Macos => "demo",
    };
    IntegrationActivationPlan {
        package_state_key: "default--host--core--demo".to_string(),
        package: package.to_string(),
        integration_key: "path_plugin:demo:democtl".to_string(),
        kind: "path_plugin".to_string(),
        adapter: IntegrationAdapterKind::PathPluginBin,
        scope: IntegrationActivationScope::Unscoped,
        desired_state: IntegrationDesiredState::Enabled,
        host_path: host_path.to_string(),
        source_path: source_path.to_string(),
    }
}

fn service_adapter_plan(
    _platform: HostPlatform,
    adapter: IntegrationAdapterKind,
    host_path: &str,
    source_path: &str,
) -> IntegrationActivationPlan {
    IntegrationActivationPlan {
        package_state_key: "default--host--core--caddy".to_string(),
        package: "caddy".to_string(),
        integration_key: "service:caddy".to_string(),
        kind: "service".to_string(),
        adapter,
        scope: IntegrationActivationScope::User,
        desired_state: IntegrationDesiredState::Running,
        host_path: host_path.to_string(),
        source_path: source_path.to_string(),
    }
}

#[derive(Debug, Default)]
struct FakeActivationCommandExecutor {
    commands: Vec<(String, Vec<String>)>,
    results: Vec<NativeCommandResult>,
}

impl FakeActivationCommandExecutor {
    fn with_results(results: Vec<NativeCommandResult>) -> Self {
        Self { commands: Vec::new(), results }
    }
}

impl NativeCommandRunner for FakeActivationCommandExecutor {
    fn run(&mut self, program: &str, args: &[String]) -> NativeCommandResult {
        self.commands.push((program.to_string(), args.to_vec()));
        if self.results.is_empty() {
            NativeCommandResult::success("", "")
        } else {
            self.results.remove(0)
        }
    }
}

/// A filesystem whose next symlink or shim write destroys the entry and
/// fails.
struct DestructiveFailingReplacementFs {
    inner: MemoryActivationFs,
    fail_symlink: bool,
    fail_shim: bool,
}

impl ActivationFilesystem for DestructiveFailingReplacementFs {
    fn platform(&self) -> HostPlatform {
        self.inner.platform()
    }

    fn symlink_supported(&self) -> bool {
        self.inner.symlink_supported()
    }

    fn entry(&self, path: &str) -> Option<ActivationFsEntry> {
        self.inner.entry(path)
    }

    fn create_parent_dirs_after_preflight(&mut self, path: &str) -> Option<Vec<String>> {
        self.inner.create_parent_dirs_after_preflight(path)
    }

    fn write_owned_symlink_for(
        &mut self,
        path: &str,
        target: &str,
        package_state_key: &str,
        package: &str,
        integration_key: &str,
    ) -> bool {
        if self.fail_symlink {
            self.fail_symlink = false;
            self.inner.remove_entry(path);
            return false;
        }
        ActivationFilesystem::write_owned_symlink_for(
            &mut self.inner,
            path,
            target,
            package_state_key,
            package,
            integration_key,
        )
    }

    fn write_owned_shim_for(
        &mut self,
        path: &str,
        target: &str,
        package_state_key: &str,
        package: &str,
        integration_key: &str,
    ) -> bool {
        if self.fail_shim {
            self.fail_shim = false;
            self.inner.remove_entry(path);
            return false;
        }
        self.inner
            .write_owned_shim_for(path, target, package_state_key, package, integration_key)
    }

    fn write_owned_service_metadata_for(
        &mut self,
        path: &str,
        source: &str,
        package_state_key: &str,
        package: &str,
        integration_key: &str,
    ) -> bool {
        ActivationFilesystem::write_owned_service_metadata_for(
            &mut self.inner,
            path,
            source,
            package_state_key,
            package,
            integration_key,
        )
    }

    fn remove_entry(&mut self, path: &str) -> bool {
        self.inner.remove_entry(path)
    }
}

#[test]
fn service_adapter_status_parses_running_stopped_failed_and_unsupported() {
    for (platform, adapter, host_path, source_path, status, stdout, stderr, state) in [
        (
            HostPlatform::Linux,
            IntegrationAdapterKind::SystemdUser,
            "systemd-user:caddy.service",
            "/prefix/share/integrations/services/caddy.service",
            0,
            "Active: active (running)",
            "",
            IntegrationAppliedState::Running,
        ),
        (
            HostPlatform::Linux,
            IntegrationAdapterKind::SystemdUser,
            "systemd-user:caddy.service",
            "/prefix/share/integrations/services/caddy.service",
            3,
            "Active: inactive (dead)",
            "",
            IntegrationAppliedState::Stopped,
        ),
        (
            HostPlatform::Linux,
            IntegrationAdapterKind::SystemdUser,
            "systemd-user:caddy.service",
            "/prefix/share/integrations/services/caddy.service",
            3,
            "Active: failed (Result: exit-code)",
            "",
            IntegrationAppliedState::Failed,
        ),
        (
            HostPlatform::Linux,
            IntegrationAdapterKind::SystemdUser,
            "systemd-user:caddy.service",
            "/prefix/share/integrations/services/caddy.service",
            4,
            "Loaded: not-found (Reason: No such file or directory)\nActive: inactive (dead)",
            "",
            IntegrationAppliedState::Unsupported,
        ),
        (
            HostPlatform::Macos,
            IntegrationAdapterKind::LaunchdUser,
            "/Users/test/Library/LaunchAgents/com.example.caddy.plist",
            "/prefix/share/integrations/services/com.example.caddy.plist",
            0,
            "state = running",
            "",
            IntegrationAppliedState::Running,
        ),
        (
            HostPlatform::Macos,
            IntegrationAdapterKind::LaunchdUser,
            "/Users/test/Library/LaunchAgents/com.example.caddy.plist",
            "/prefix/share/integrations/services/com.example.caddy.plist",
            113,
            "Could not find service \"com.example.caddy\" in domain for user gui/current",
            "",
            IntegrationAppliedState::Stopped,
        ),
        (
            HostPlatform::Macos,
            IntegrationAdapterKind::LaunchdUser,
            "/Users/test/Library/LaunchAgents/com.example.caddy.plist",
            "/prefix/share/integrations/services/com.example.caddy.plist",
            0,
            "last exit code = 1",
            "",
            IntegrationAppliedState::Failed,
        ),
        (
            HostPlatform::Macos,
            IntegrationAdapterKind::LaunchdUser,
            "/Users/test/Library/LaunchAgents/com.example.caddy.plist",
            "/prefix/share/integrations/services/com.example.caddy.plist",
            113,
            "",
            "Bootstrap failed: 5: Input/output error",
            IntegrationAppliedState::Unsupported,
        ),
        (
            HostPlatform::Windows,
            IntegrationAdapterKind::WindowsServiceUser,
            "windows-service-user:caddy",
            "C:\\Crosspack\\share\\integrations\\services\\caddy-service.json",
            0,
            "state=running",
            "",
            IntegrationAppliedState::Running,
        ),
        (
            HostPlatform::Windows,
            IntegrationAdapterKind::WindowsServiceUser,
            "windows-service-user:caddy",
            "C:\\Crosspack\\share\\integrations\\services\\caddy-service.json",
            3,
            "STATE              : 1  STOPPED",
            "",
            IntegrationAppliedState::Stopped,
        ),
        (
            HostPlatform::Windows,
            IntegrationAdapterKind::WindowsServiceUser,
            "windows-service-user:caddy",
            "C:\\Crosspack\\share\\integrations\\services\\caddy-service.json",
            1,
            "state=failed",
            "",
            IntegrationAppliedState::Failed,
        ),
        (
            HostPlatform::Windows,
            IntegrationAdapterKind::WindowsServiceUser,
            "windows-service-user:caddy",
            "C:\\Crosspack\\share\\integrations\\services\\caddy-service.json",
            1060,
            "[SC] OpenService FAILED 1060:\nThe specified service does not exist as an installed service.",
            "",
            IntegrationAppliedState::Unsupported,
        ),
        (
            HostPlatform::Windows,
            IntegrationAdapterKind::WindowsServiceUser,
            "windows-service-user:caddy",
            "C:\\Crosspack\\share\\integrations\\services\\caddy-service.json",
            3,
            "state=not running",
            "",
            IntegrationAppliedState::Stopped,
        ),
    ] {
        let plan = service_adapter_plan(platform, adapter, host_path, source_path);
        let mut executor = FakeActivationCommandExecutor::with_results(vec![NativeCommandResult {
            status,
            stdout: stdout.to_string(),
            stderr: stderr.to_string(),
        }]);

        let outcome = status_service_plan(&mut RecordingExecutor::new(&mut executor), &plan);

        assert_eq!(
            outcome.reason_code,
            IntegrationReasonCode::Success,
            "platform={platform:?} stdout={stdout:?} stderr={stderr:?} status={status}"
        );
        assert_eq!(outcome.applied_state, state, "platform={platform:?}");
    }
}

#[test]
fn service_adapter_successful_unparseable_status_is_not_ok() {
    let plan = service_adapter_plan(
        HostPlatform::Windows,
        IntegrationAdapterKind::WindowsServiceUser,
        "windows-service-user:caddy",
        "C:\\Crosspack\\share\\integrations\\services\\caddy-service.json",
    );
    let mut executor = FakeActivationCommandExecutor::with_results(vec![NativeCommandResult {
        status: 0,
        stdout: "service exists but status payload is malformed".to_string(),
        stderr: String::new(),
    }]);

    let outcome = status_service_plan(&mut RecordingExecutor::new(&mut executor), &plan);

    assert_eq!(
        outcome.reason_code,
        IntegrationReasonCode::NativeCommandFailed
    );
    assert_eq!(outcome.applied_state, IntegrationAppliedState::Failed);
}

#[test]
fn service_adapter_linux_systemd_user_install_enable_start_status_sequence() {
    let plan = service_adapter_plan(
        HostPlatform::Linux,
        IntegrationAdapterKind::SystemdUser,
        "systemd-user:caddy.service",
        "/prefix/share/integrations/services/caddy.service",
    );
    let mut executor = FakeActivationCommandExecutor::with_results(vec![
        NativeCommandResult::success("", ""),
        NativeCommandResult::success("", ""),
        NativeCommandResult::success("", ""),
        NativeCommandResult::success("", ""),
        NativeCommandResult::success("Active: active (running)", ""),
    ]);

    let mut fs = MemoryActivationFs::new(HostPlatform::Linux);
    let outcome = apply_service_plan_with_fs(&mut fs, &mut RecordingExecutor::new(&mut executor), &plan);

    assert_eq!(outcome.reason_code, IntegrationReasonCode::Success);
    assert_eq!(outcome.applied_state, IntegrationAppliedState::Running);
    assert_eq!(outcome.rollback.len(), 1);
    assert_eq!(
        outcome.rollback[0].operation,
        ActivationRollbackOperation::RemoveCreatedServiceMetadata
    );
    assert_eq!(
        fs.service_metadata_source("systemd-user:caddy.service").as_deref(),
        Some("/prefix/share/integrations/services/caddy.service")
    );
    let expected: Vec<(String, Vec<String>)> = vec![
        ("systemctl", vec!["--user", "link", "/prefix/share/integrations/services/caddy.service"]),
        ("systemctl", vec!["--user", "daemon-reload"]),
        ("systemctl", vec!["--user", "enable", "caddy.service"]),
        ("systemctl", vec!["--user", "start", "caddy.service"]),
        ("systemctl", vec!["--user", "status", "caddy.service"]),
    ]
    .into_iter()
    .map(|(p, a)| (p.to_string(), a.into_iter().map(str::to_string).collect()))
    .collect();
    assert_eq!(executor.commands, expected);
}

#[test]
fn service_adapter_stops_command_sequence_after_partial_failure() {
    let plan = service_adapter_plan(
        HostPlatform::Linux,
        IntegrationAdapterKind::SystemdUser,
        "systemd-user:caddy.service",
        "/prefix/share/integrations/services/caddy.service",
    );
    let mut executor = FakeActivationCommandExecutor::with_results(vec![
        NativeCommandResult::success("", ""),
        NativeCommandResult {
            status: 1,
            stdout: String::new(),
            stderr: "daemon reload failed".to_string(),
        },
        NativeCommandResult::success("", ""),
    ]);

    let outcome = apply_service_plan(&mut RecordingExecutor::new(&mut executor), &plan);

    assert_eq!(outcome.reason_code, IntegrationReasonCode::NativeCommandFailed);
    assert_eq!(executor.commands.len(), 2);
}

#[test]
fn service_adapter_launchd_disable_sequence_and_tool_missing() {
    let plan = service_adapter_plan(
        HostPlatform::Macos,
        IntegrationAdapterKind::LaunchdUser,
        "/Users/test/Library/LaunchAgents/com.example.caddy.plist",
        "/prefix/share/integrations/services/com.example.caddy.plist",
    );
    let mut executor = FakeActivationCommandExecutor::default();
    let outcome = disable_service_plan(&mut RecordingExecutor::new(&mut executor), &plan);
    assert_eq!(outcome.reason_code, IntegrationReasonCode::Success);
    assert_eq!(outcome.applied_state, IntegrationAppliedState::Stopped);
    assert_eq!(
        executor.commands,
        vec![
            (
                "launchctl".to_string(),
                vec!["bootout".to_string(), "gui/current/com.example.caddy".to_string()]
            ),
            (
                "launchctl".to_string(),
                vec!["disable".to_string(), "gui/current/com.example.caddy".to_string()]
            ),
        ]
    );

    let mut missing = FakeActivationCommandExecutor::with_results(vec![NativeCommandResult {
        status: 127,
        stdout: String::new(),
        stderr: "launchctl: command not found".to_string(),
    }]);
    let outcome = run_service_action_plan(&mut RecordingExecutor::new(&mut missing), &plan, NativeServiceAction::Start);
    assert_eq!(outcome.reason_code, IntegrationReasonCode::AdapterToolMissing);
    assert_eq!(outcome.applied_state, IntegrationAppliedState::Unsupported);
}

#[test]
fn service_action_status_reports_unsupported_host_and_windows_admin_escalation() {
    let plan = service_adapter_plan(
        HostPlatform::Linux,
        IntegrationAdapterKind::SystemdUser,
        "systemd-user:caddy.service",
        "/prefix/share/integrations/services/caddy.service",
    );
    let mut executor = FakeActivationCommandExecutor::with_results(vec![NativeCommandResult {
        status: 4,
        stdout: "Unit caddy.service could not be found.".to_string(),
        stderr: String::new(),
    }]);
    let outcome = run_service_action_plan(&mut RecordingExecutor::new(&mut executor), &plan, NativeServiceAction::Status);
    assert_eq!(outcome.reason_code, IntegrationReasonCode::UnsupportedHost);
    assert_eq!(outcome.applied_state, IntegrationAppliedState::Unsupported);

    let mut stop = FakeActivationCommandExecutor::default();
    let outcome = run_service_action_plan(&mut RecordingExecutor::new(&mut stop), &plan, NativeServiceAction::Stop);
    assert_eq!(outcome.reason_code, IntegrationReasonCode::Success);
    assert_eq!(outcome.applied_state, IntegrationAppliedState::Stopped);

    let mut admin = service_adapter_plan(
        HostPlatform::Windows,
        IntegrationAdapterKind::WindowsServiceUser,
        "windows-service-user:caddy",
        "C:\\Crosspack\\share\\integrations\\services\\caddy-service.json",
    );
    admin.scope = IntegrationActivationScope::System;
    let mut none = FakeActivationCommandExecutor::default();
    let outcome = status_service_plan(&mut RecordingExecutor::new(&mut none), &admin);
    assert_eq!(outcome.reason_code, IntegrationReasonCode::EscalationRequired);
    assert!(none.commands.is_empty());
}

#[test]
fn parse_service_status_reads_windows_state_words() {
    assert_eq!(
        parse_service_status(
            IntegrationAdapterKind::WindowsServiceUser,
            "SERVICE_NAME: caddy\n        STATE              : 4  RUNNING\n",
            ""
        ),
        Some(IntegrationAppliedState::Running)
    );
    assert_eq!(
        parse_service_status(IntegrationAdapterKind::WindowsServiceUser, "no state here", ""),
        None
    );
    assert_eq!(
        parse_service_status(IntegrationAdapterKind::DockerCli, "", ""),
        Some(IntegrationAppliedState::Unsupported)
    );
}

#[test]
fn path_plugin_adapter_creates_idempotent_owned_symlink_on_linux_and_macos() {
    for platform in [HostPlatform::Linux, HostPlatform::Macos] {
        let host_path = "/prefix/bin/democtl";
        let source_path = "/prefix/share/integrations/path/demo/democtl";
        let mut fs = MemoryActivationFs::new(platform).with_symlink_support(true);
        let plan = path_plugin_adapter_plan(platform, host_path, source_path);

        let first = apply_path_plugin_plan(&mut fs, &plan);
        assert_eq!(first.reason_code, IntegrationReasonCode::Success);
        assert_eq!(first.rollback[0].operation, ActivationRollbackOperation::RemoveCreatedSymlink);
        assert_eq!(first.rollback[0].created_parent_dirs, vec!["/prefix".to_string(), "/prefix/bin".to_string()]);
        assert!(fs.is_dir("/prefix/bin"));
        assert_eq!(fs.symlink_target(host_path).as_deref(), Some(source_path));
        let second = apply_path_plugin_plan(&mut fs, &plan);
        assert_eq!(second.reason_code, IntegrationReasonCode::Success);
        assert!(second.rollback.is_empty());
        assert_eq!(fs.symlink_target(host_path).as_deref(), Some(source_path));
    }
}

#[test]
fn path_plugin_adapter_preserves_previous_owned_symlink_when_replacement_write_fails() {
    let mut plan = path_plugin_adapter_plan(
        HostPlatform::Linux,
        "/prefix/bin/democtl",
        "/prefix/share/integrations/path/demo/democtl-v1",
    );
    let mut fs = DestructiveFailingReplacementFs {
        inner: MemoryActivationFs::new(HostPlatform::Linux),
        fail_symlink: false,
        fail_shim: false,
    };
    assert_eq!(apply_path_plugin_plan(&mut fs, &plan).reason_code, IntegrationReasonCode::Success);
    plan.source_path = "/prefix/share/integrations/path/demo/democtl-v2".to_string();
    fs.fail_symlink = true;

    let outcome = apply_path_plugin_plan(&mut fs, &plan);

    assert_eq!(outcome.reason_code, IntegrationReasonCode::HostPathConflict);
    assert_eq!(
        fs.inner.symlink_target(&plan.host_path).as_deref(),
        Some("/prefix/share/integrations/path/demo/democtl-v1")
    );
}

#[test]
fn path_plugin_adapter_windows_replace_and_disable_return_shim_rollback_metadata() {
    let mut fs = MemoryActivationFs::new(HostPlatform::Windows).with_symlink_support(false);
    let mut plan = path_plugin_adapter_plan(
        HostPlatform::Windows,
        "C:\\Crosspack\\bin\\democtl.cmd",
        "C:\\Crosspack\\share\\integrations\\path\\demo\\democtl-v1.exe",
    );

    assert_eq!(apply_path_plugin_plan(&mut fs, &plan).reason_code, IntegrationReasonCode::Success);
    plan.source_path = "C:\\Crosspack\\share\\integrations\\path\\demo\\democtl-v2.exe".to_string();

    let replace = apply_path_plugin_plan(&mut fs, &plan);

    assert_eq!(replace.reason_code, IntegrationReasonCode::Success);
    assert_eq!(replace.rollback.len(), 1);
    assert_eq!(
        replace.rollback[0].operation,
        ActivationRollbackOperation::RestoreOwnedWindowsShim
    );
    assert_eq!(
        replace.rollback[0].previous_shim_target.as_deref(),
        Some("C:\\Crosspack\\share\\integrations\\path\\demo\\democtl-v1.exe")
    );
    assert_eq!(
        fs.shim_target(&plan.host_path).as_deref(),
        Some("C:\\Crosspack\\share\\integrations\\path\\demo\\democtl-v2.exe")
    );

    let disable = disable_path_plugin_plan(&mut fs, &plan);

    assert_eq!(disable.reason_code, IntegrationReasonCode::Success);
    assert_eq!(disable.rollback.len(), 1);
    assert_eq!(
        disable.rollback[0].previous_shim_target.as_deref(),
        Some("C:\\Crosspack\\share\\integrations\\path\\demo\\democtl-v2.exe")
    );
    assert!(!fs.entry_exists(&plan.host_path));

    let undo = replay_activation_rollback_entry_with_fs(&mut fs, &disable.rollback[0]);
    assert_eq!(undo.reason_code, IntegrationReasonCode::Success);
    assert_eq!(
        fs.shim_target(&plan.host_path).as_deref(),
        Some("C:\\Crosspack\\share\\integrations\\path\\demo\\democtl-v2.exe")
    );
}

#[test]
fn path_plugin_adapter_rejects_foreign_file_and_outside_prefix_destination() {
    let mut fs = MemoryActivationFs::new(HostPlatform::Linux).with_symlink_support(true);
    let plan = path_plugin_adapter_plan(
        HostPlatform::Linux,
        "/prefix/bin/democtl",
        "/prefix/share/integrations/path/demo/democtl",
    );
    fs.write_file(&plan.host_path, b"foreign");
    assert_eq!(
        apply_path_plugin_plan(&mut fs, &plan).reason_code,
        IntegrationReasonCode::HostPathConflict
    );
    assert!(fs.is_file(&plan.host_path));

    let outside = path_plugin_adapter_plan(
        HostPlatform::Linux,
        "/usr/local/bin/democtl",
        "/prefix/share/integrations/path/demo/democtl",
    );
    assert_eq!(
        apply_path_plugin_plan(&mut fs, &outside).reason_code,
        IntegrationReasonCode::HostPathConflict
    );
    assert!(!fs.entry_exists("/usr/local/bin/democtl"));
}

#[test]
fn destination_under_source_prefix_requires_bin_leaf() {
    let source = "/prefix/share/integrations/path/demo/democtl";
    assert!(destination_is_under_source_prefix(HostPlatform::Linux, "/prefix/bin/democtl", source));
    assert!(!destination_is_under_source_prefix(HostPlatform::Linux, "/prefix/bin/", source));
    assert!(!destination_is_under_source_prefix(HostPlatform::Linux, "/prefix/bin/a/b", source));
    assert!(!destination_is_under_source_prefix(HostPlatform::Linux, "/other/bin/democtl", source));
    assert!(!destination_is_under_source_prefix(
        HostPlatform::Linux,
        "/bin/democtl",
        "/share/integrations/path/demo/democtl"
    ));
    let win_source = "C:\\Crosspack\\share\\integrations\\path\\demo\\democtl.exe";
    assert!(destination_is_under_source_prefix(
        HostPlatform::Windows,
        "C:\\Crosspack\\bin\\democtl.cmd",
        win_source
    ));
    assert!(!destination_is_under_source_prefix(
        HostPlatform::Windows,
        "C:\\Crosspack\\bin\\democtl.exe",
        win_source
    ));
}

#[test]
fn docker_adapter_apply_then_rollback_restores_absence_and_previous_target() {
    let mut fs = MemoryActivationFs::new(HostPlatform::Linux).with_symlink_support(true);
    let plan = docker_adapter_plan(
        HostPlatform::Linux,
        "/home/test/.docker/cli-plugins/docker-compose",
        "/prefix/share/integrations/docker/compose/docker-compose",
    );
    let applied = apply_integration_plan_with_fs(&mut fs, &plan);
    assert_eq!(applied.reason_code, IntegrationReasonCode::Success);
    assert_eq!(applied.applied_state, IntegrationAppliedState::Enabled);
    let undo = replay_activation_rollback_entry_with_fs(&mut fs, &applied.rollback[0]);
    assert_eq!(undo.reason_code, IntegrationReasonCode::Success);
    assert!(!fs.entry_exists(&plan.host_path));

    fs.write_owned_symlink(&plan.host_path, "/old/compose");
    let mut newer = plan.clone();
    newer.source_path = "/prefix/share/integrations/docker/compose/docker-compose-2".to_string();
    let replaced = apply_docker_cli_plugin_plan(&mut fs, &newer);
    assert_eq!(replaced.reason_code, IntegrationReasonCode::Success);
    assert_eq!(
        replaced.rollback[0].operation,
        ActivationRollbackOperation::RestoreOwnedSymlink
    );
    let undo = replay_activation_rollback_entry_with_fs(&mut fs, &replaced.rollback[0]);
    assert_eq!(undo.reason_code, IntegrationReasonCode::Success);
    assert_eq!(undo.applied_state, IntegrationAppliedState::Enabled);
    assert_eq!(fs.symlink_target(&plan.host_path).as_deref(), Some("/old/compose"));
}

#[test]
fn docker_adapter_windows_without_symlinks_requires_escalation() {
    let mut fs = MemoryActivationFs::new(HostPlatform::Windows).with_symlink_support(false);
    let plan = docker_adapter_plan(
        HostPlatform::Windows,
        "C:\\Users\\test\\.docker\\cli-plugins\\docker-compose.exe",
        "C:\\Crosspack\\share\\integrations\\docker\\compose\\docker-compose.exe",
    );
    let outcome = apply_docker_cli_plugin_plan(&mut fs, &plan);
    assert_eq!(outcome.reason_code, IntegrationReasonCode::EscalationRequired);
    assert_eq!(outcome.applied_state, IntegrationAppliedState::Unsupported);
}

#[test]
fn docker_adapter_disable_conflicts_on_foreign_symlink_and_ignores_absence() {
    let mut fs = MemoryActivationFs::new(HostPlatform::Linux).with_symlink_support(true);
    let plan = docker_adapter_plan(
        HostPlatform::Linux,
        "/home/test/.docker/cli-plugins/docker-compose",
        "/prefix/share/integrations/docker/compose/docker-compose",
    );
    let absent = disable_docker_cli_plugin_plan(&mut fs, &plan);
    assert_eq!(absent.reason_code, IntegrationReasonCode::Success);
    assert_eq!(absent.applied_state, IntegrationAppliedState::Stopped);
    assert!(absent.rollback.is_empty());

    fs.write_symlink(&plan.host_path, &plan.source_path);
    let foreign = disable_integration_plan_with_fs(&mut fs, &plan);
    assert_eq!(foreign.reason_code, IntegrationReasonCode::HostPathConflict);
    assert_eq!(fs.symlink_target(&plan.host_path).as_deref(), Some(plan.source_path.as_str()));
}

#[test]
fn unknown_plan_kind_is_unsupported_and_replay_refuses_incomplete_entries() {
    let mut fs = MemoryActivationFs::new(HostPlatform::Linux);
    let mut plan = docker_adapter_plan(HostPlatform::Linux, "/a/b", "/c/d");
    plan.kind = "service".to_string();
    let outcome = apply_integration_plan_with_fs(&mut fs, &plan);
    assert_eq!(outcome.reason_code, IntegrationReasonCode::UnsupportedHost);

    let entry = ActivationRollbackEntry {
        operation: ActivationRollbackOperation::RestoreOwnedSymlink,
        path: "/a/b".to_string(),
        previous_symlink_target: None,
        previous_shim_target: None,
        previous_owner: None,
        created_symlink_target: None,
        created_shim_target: None,
        created_owner: None,
        expected_current_symlink_target: None,
        expected_current_shim_target: None,
        expected_current_owner: None,
        expected_current_absent: true,
        created_parent_dirs: Vec::new(),
    };
    let outcome = replay_activation_rollback_entry_with_fs(&mut fs, &entry);
    assert_eq!(outcome.reason_code, IntegrationReasonCode::HostPathConflict);
}

#[test]
fn parent_path_follows_platform_separators() {
    assert_eq!(parent_path(HostPlatform::Linux, "/a/b").as_deref(), Some("/a"));
    assert_eq!(parent_path(HostPlatform::Linux, "/a").as_deref(), Some("/"));
    assert_eq!(parent_path(HostPlatform::Linux, "a"), None);
    assert_eq!(parent_path(HostPlatform::Windows, "C:\\a").as_deref(), Some("C:\\"));
    assert_eq!(parent_path(HostPlatform::Windows, "C:\\a\\b").as_deref(), Some("C:\\a"));
    assert_eq!(parent_path(HostPlatform::Linux, "a\\b"), None);
}

#[test]
fn real_activation_fs_owners_come_from_granting_records() {
    let record = |host: Option<&str>, applied: IntegrationAppliedState, package: &str| {
        IntegrationActivationRecord {
            package_state_key: "default--host--core--demo".to_string(),
            package: package.to_string(),
            integration_key: "path_plugin:demo:democtl".to_string(),
            kind: "path_plugin".to_string(),
            adapter: IntegrationAdapterKind::PathPluginBin,
            scope: IntegrationActivationScope::Unscoped,
            desired_state: IntegrationDesiredState::Enabled,
            applied_state: applied,
            host_path: host.map(str::to_string),
            reason_code: IntegrationReasonCode::Success,
        }
    };
    let fs = real_activation_fs_from_records(
        HostPlatform::Linux,
        &vec![
            record(Some("/prefix/bin/a"), IntegrationAppliedState::Enabled, "first"),
            record(Some("/prefix/bin/a"), IntegrationAppliedState::Running, "second"),
            record(Some("/prefix/bin/b"), IntegrationAppliedState::Failed, "failed"),
            record(None, IntegrationAppliedState::Enabled, "nowhere"),
        ],
    );
    assert_eq!(
        fs.owner_for_path("/prefix/bin/a", Some("target")).map(|o| o.package),
        Some("second".to_string())
    );
    assert_eq!(fs.owner_for_path("/prefix/bin/a", Some("")), None);
    assert_eq!(fs.owner_for_path("/prefix/bin/b", Some("target")), None);

    let mut fs = RealActivationFs::new(
        HostPlatform::Windows,
        vec![(
            "C:\\x".to_string(),
            ActivationOwner {
                package_state_key: "k".to_string(),
                package: "p".to_string(),
                integration_key: "i".to_string(),
            },
        )],
    )
    .with_symlink_support(false);
    assert!(!fs.symlink_supported());
    assert_eq!(fs.platform(), HostPlatform::Windows);
    fs.forget_owner("C:\\x");
    assert_eq!(fs.owner_for_path("C:\\x", Some("t")), None);
}

#[test]
fn windows_shim_text_round_trips_its_target() {
    let text = windows_shim_contents("C:\\Crosspack\\pkgs\\demo\\demo.exe");
    assert_eq!(text, "@echo off\r\n\"C:\\Crosspack\\pkgs\\demo\\demo.exe\" %*\r\n");
    assert_eq!(
        parse_crosspack_windows_shim(&text).as_deref(),
        Some("C:\\Crosspack\\pkgs\\demo\\demo.exe")
    );
    assert_eq!(parse_crosspack_windows_shim("@ECHO OFF\n  \"x\"  %*  \n").as_deref(), Some("x"));
    assert_eq!(parse_crosspack_windows_shim("@echo off\n\"\" %*\n"), None);
    assert_eq!(parse_crosspack_windows_shim("echo\n\"x\" %*\n"), None);
    assert_eq!(parse_crosspack_windows_shim("@echo off\n\"x\" %1\n"), None);
}

fn commands_of(list: Vec<(&str, Vec<&str>)>) -> Vec<(String, Vec<String>)> {
    list.into_iter()
        .map(|(p, a)| (p.to_string(), a.into_iter().map(str::to_string).collect()))
        .collect()
}

#[test]
fn service_adapter_windows_user_service_sequence_when_no_admin_required() {
    let plan = service_adapter_plan(
        HostPlatform::Windows,
        IntegrationAdapterKind::WindowsServiceUser,
        "windows-service-user:caddy",
        "C:\\Crosspack\\share\\integrations\\services\\caddy-service.json",
    );
    let mut executor = FakeActivationCommandExecutor::with_results(vec![
        NativeCommandResult::success("", ""),
        NativeCommandResult::success("", ""),
        NativeCommandResult::success("", ""),
        NativeCommandResult::success("state=running", ""),
    ]);

    let outcome = apply_service_plan(&mut RecordingExecutor::new(&mut executor), &plan);

    assert_eq!(outcome.reason_code, IntegrationReasonCode::Success);
    assert_eq!(outcome.applied_state, IntegrationAppliedState::Running);
    assert_eq!(
        executor.commands,
        commands_of(vec![
            (
                "crosspack-service-user",
                vec!["install", "caddy", "C:\\Crosspack\\share\\integrations\\services\\caddy-service.json"],
            ),
            ("crosspack-service-user", vec!["enable", "caddy"]),
            ("crosspack-service-user", vec!["start", "caddy"]),
            ("crosspack-service-user", vec!["status", "caddy"]),
        ])
    );
}

#[test]
fn service_adapter_windows_scm_admin_required_returns_escalation_without_mutation() {
    let mut plan = service_adapter_plan(
        HostPlatform::Windows,
        IntegrationAdapterKind::WindowsServiceUser,
        "windows-service-user:caddy",
        "C:\\Crosspack\\share\\integrations\\services\\caddy-service.json",
    );
    plan.scope = IntegrationActivationScope::System;
    let mut executor = FakeActivationCommandExecutor::default();

    let outcome = apply_service_plan(&mut RecordingExecutor::new(&mut executor), &plan);

    assert_eq!(outcome.reason_code, IntegrationReasonCode::EscalationRequired);
    assert_eq!(outcome.applied_state, IntegrationAppliedState::Unsupported);
    assert!(executor.commands.is_empty());
}

#[test]
fn service_adapter_stop_disable_remove_command_sequences() {
    for (platform, adapter, host_path, source_path, expected) in [
        (
            HostPlatform::Linux,
            IntegrationAdapterKind::SystemdUser,
            "systemd-user:caddy.service",
            "/prefix/share/integrations/services/caddy.service",
            vec![
                ("systemctl", vec!["--user", "stop", "caddy.service"]),
                ("systemctl", vec!["--user", "disable", "caddy.service"]),
                ("systemctl", vec!["--user", "reset-failed", "caddy.service"]),
                ("systemctl", vec!["--user", "daemon-reload"]),
            ],
        ),
        (
            HostPlatform::Macos,
            IntegrationAdapterKind::LaunchdUser,
            "/Users/test/Library/LaunchAgents/com.example.caddy.plist",
            "/prefix/share/integrations/services/com.example.caddy.plist",
            vec![
                ("launchctl", vec!["bootout", "gui/current/com.example.caddy"]),
                ("launchctl", vec!["disable", "gui/current/com.example.caddy"]),
            ],
        ),
        (
            HostPlatform::Windows,
            IntegrationAdapterKind::WindowsServiceUser,
            "windows-service-user:caddy",
            "C:\\Crosspack\\share\\integrations\\services\\caddy-service.json",
            vec![
                ("crosspack-service-user", vec!["stop", "caddy"]),
                ("crosspack-service-user", vec!["disable", "caddy"]),
                ("crosspack-service-user", vec!["remove", "caddy"]),
            ],
        ),
    ] {
        let plan = service_adapter_plan(platform, adapter, host_path, source_path);
        let mut executor = FakeActivationCommandExecutor::default();

        let outcome = disable_service_plan(&mut RecordingExecutor::new(&mut executor), &plan);

        assert_eq!(outcome.reason_code, IntegrationReasonCode::Success, "platform={platform:?}");
        assert_eq!(outcome.applied_state, IntegrationAppliedState::Stopped);
        assert_eq!(executor.commands, commands_of(expected), "platform={platform:?}");
    }
}

#[test]
fn memory_fs_creates_missing_parents_outermost_first() {
    let mut fs = MemoryActivationFs::new(HostPlatform::Linux);
    fs.write_file("/home/a", b"x");
    assert_eq!(
        fs.parent_dirs_to_create("/home/u/.docker/cli-plugins/compose"),
        Some(vec![
            "/home".to_string(),
            "/home/u".to_string(),
            "/home/u/.docker".to_string(),
            "/home/u/.docker/cli-plugins".to_string(),
        ])
    );
    assert_eq!(fs.parent_dirs_to_create("/home/a/b"), None);
    let created = ActivationFilesystem::create_parent_dirs_after_preflight(&mut fs, "/opt/x/y")
        .expect("parents can be created");
    assert_eq!(created, vec!["/opt".to_string(), "/opt/x".to_string()]);
    assert!(fs.is_dir("/opt/x"));
    assert_eq!(fs.parent_dirs_to_create("/opt/x/y"), Some(Vec::new()));
}

#[test]
fn link_apply_outcome_follows_the_filesystem_answers() {
    let plan = docker_adapter_plan(
        HostPlatform::Linux,
        "/home/test/.docker/cli-plugins/docker-compose",
        "/prefix/share/integrations/docker/cli-plugins/docker-compose",
    );
    let created = link_apply_outcome(
        &plan,
        false,
        &None,
        Some(vec!["/home/test/.docker".to_string()]),
        true,
    );
    assert_eq!(created.reason_code, IntegrationReasonCode::Success);
    assert_eq!(created.applied_state, IntegrationAppliedState::Enabled);
    assert_eq!(created.rollback.len(), 1);
    assert_eq!(
        created.rollback[0].operation,
        ActivationRollbackOperation::RemoveCreatedSymlink
    );
    assert_eq!(
        created.rollback[0].created_parent_dirs,
        vec!["/home/test/.docker".to_string()]
    );
    assert_eq!(
        created.rollback[0].created_symlink_target.as_deref(),
        Some("/prefix/share/integrations/docker/cli-plugins/docker-compose")
    );

    let replaced = link_apply_outcome(&plan, false, &Some("/old/target".to_string()), Some(Vec::new()), true);
    assert_eq!(replaced.rollback.len(), 1);
    assert_eq!(
        replaced.rollback[0].operation,
        ActivationRollbackOperation::RestoreOwnedSymlink
    );
    assert_eq!(replaced.rollback[0].previous_symlink_target.as_deref(), Some("/old/target"));

    for (dirs, written) in [(None, false), (None, true), (Some(Vec::new()), false)] {
        let out = link_apply_outcome(&plan, false, &None, dirs, written);
        assert_eq!(out.reason_code, IntegrationReasonCode::HostPathConflict);
        assert_eq!(out.applied_state, IntegrationAppliedState::Failed);
        assert!(out.rollback.is_empty());
    }
}

#[test]
fn link_disable_and_replay_outcomes_follow_the_filesystem_answers() {
    let plan = docker_adapter_plan(
        HostPlatform::Linux,
        "/home/test/.docker/cli-plugins/docker-compose",
        "/prefix/share/integrations/docker/cli-plugins/docker-compose",
    );
    let removed = link_disable_outcome(&plan, false, &"/prefix/x".to_string(), None, true);
    assert_eq!(removed.reason_code, IntegrationReasonCode::Success);
    assert_eq!(removed.applied_state, IntegrationAppliedState::Stopped);
    assert_eq!(removed.rollback.len(), 1);
    assert!(removed.rollback[0].expected_current_absent);
    assert_eq!(removed.rollback[0].previous_symlink_target.as_deref(), Some("/prefix/x"));
    let kept = link_disable_outcome(&plan, false, &"/prefix/x".to_string(), None, false);
    assert_eq!(kept.reason_code, IntegrationReasonCode::HostPathConflict);
    assert!(kept.rollback.is_empty());

    let restored = replay_outcome(ActivationRollbackOperation::RestoreOwnedWindowsShim, true);
    assert_eq!(restored.reason_code, IntegrationReasonCode::Success);
    assert_eq!(restored.applied_state, IntegrationAppliedState::Enabled);
    let unlinked = replay_outcome(ActivationRollbackOperation::RemoveCreatedSymlink, true);
    assert_eq!(unlinked.applied_state, IntegrationAppliedState::Stopped);
    let failed = replay_outcome(ActivationRollbackOperation::RemoveCreatedSymlink, false);
    assert_eq!(failed.reason_code, IntegrationReasonCode::HostPathConflict);
    assert_eq!(failed.applied_state, IntegrationAppliedState::Failed);
}

impl NativeCommandRunner for &mut FakeActivationCommandExecutor {
    fn run(&mut self, program: &str, args: &[String]) -> NativeCommandResult {
        (**self).run(program, args)
    }
}

#[test]
fn replaying_a_service_metadata_restore_puts_the_previous_metadata_back() {
    let mut fs = MemoryActivationFs::new(HostPlatform::Macos);
    let owner = ActivationOwner {
        package_state_key: "default--host--core--caddy".to_string(),
        package: "caddy".to_string(),
        integration_key: "service:caddy".to_string(),
    };
    let path = "/Users/test/Library/LaunchAgents/com.example.caddy.plist";
    fs.put_service_metadata(path, "/prefix/new.plist", "default--host--core--caddy", "caddy", "service:caddy");
    let entry = ActivationRollbackEntry {
        operation: ActivationRollbackOperation::RestoreOwnedServiceMetadata,
        path: path.to_string(),
        previous_symlink_target: Some("/prefix/old.plist".to_string()),
        previous_shim_target: None,
        previous_owner: Some(owner.clone()),
        created_symlink_target: None,
        created_shim_target: None,
        created_owner: None,
        expected_current_symlink_target: Some("/prefix/new.plist".to_string()),
        expected_current_shim_target: None,
        expected_current_owner: Some(owner),
        expected_current_absent: false,
        created_parent_dirs: Vec::new(),
    };
    let out = replay_activation_rollback_entry_with_fs(&mut fs, &entry);
    assert_eq!(out.reason_code, IntegrationReasonCode::Success);
    assert_eq!(out.applied_state, IntegrationAppliedState::Stopped);
    assert_eq!(fs.service_metadata_source(path).as_deref(), Some("/prefix/old.plist"));
}
